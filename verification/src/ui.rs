//! The dashboard: header, servers, channels, messages with the composer, members, the line
//! at the bottom, and the popups over them. Everything is described as widgets in places;
//! drawing them is left to the terminal.

use crate::app;
use crate::app::{App, Focus, Popup};
use crate::keys;
use crate::markdown;
use crate::protocol::{Attachment, ChannelKind, Message, Notification, Presence, ReactionCount};
use crate::style;
use crate::style::{Color, Line, Span, Style};
use crate::text;
use crate::time;
use crate::time::Timestamp;
use ratatui::layout;
use vstd::prelude::*;

verus! {

// ---------------------------------------------------------------------------
// Places
// ---------------------------------------------------------------------------

/// A place on the screen.
#[derive(Debug, Clone, Copy, PartialEq, Eq, Structural)]
pub struct Rect {
    pub x: u16,
    pub y: u16,
    pub width: u16,
    pub height: u16,
}

/// How much of a place one of its parts gets.
#[derive(Debug, Clone, Copy, PartialEq, Eq, Structural)]
pub enum Share {
    Length(u16),
    Min(u16),
    Percentage(u16),
}

/// Where a place begins, from top to bottom or from left to right.
pub open spec fn start_of(vertical: bool, r: Rect) -> int {
    if vertical {
        r.y as int
    } else {
        r.x as int
    }
}

/// Where a place ends.
pub open spec fn end_of(vertical: bool, r: Rect) -> int {
    if vertical {
        r.y + r.height
    } else {
        r.x + r.width
    }
}

/// What a share asks for of a place of some size, in hundredths of a row or column. `Min`
/// gets the rest.
pub open spec fn hundredths(share: Share, size: int, rest: int) -> int {
    match share {
        Share::Length(n) => 100 * n,
        Share::Percentage(p) => size * p,
        Share::Min(_) => rest,
    }
}

/// What the first `n` shares ask for.
pub open spec fn asked(shares: Seq<Share>, size: int, rest: int, n: int) -> int
    decreases n,
{
    if n <= 0 {
        0
    } else {
        asked(shares, size, rest, n - 1) + hundredths(shares[n - 1], size, rest)
    }
}

/// What the others leave for `Min`, in hundredths.
pub open spec fn left_over(shares: Seq<Share>, size: int) -> int {
    100 * size - asked(shares, size, 0, shares.len() as int)
}

/// Every share can have what it asks for, and not two of them ask for the rest.
pub open spec fn agree(shares: Seq<Share>, size: int) -> bool {
    &&& 0 <= left_over(shares, size)
    &&& forall|i: int|
        0 <= i < shares.len() ==> ((#[trigger] shares[i]) matches Share::Min(n) ==> n <= i16::MAX
            && 100 * n <= left_over(shares, size))
    &&& forall|i: int, j: int|
        0 <= i < j < shares.len() ==> !((#[trigger] shares[i]) is Min && (
        #[trigger] shares[j]) is Min)
}

/// Where the part behind the first `n` begins, to the nearest row or column.
pub open spec fn edge(shares: Seq<Share>, start: int, size: int, n: int) -> int {
    (100 * start + asked(shares, size, left_over(shares, size), n) + 50) / 100
}

/// The parts of a place by their shares. They lie in it and reach across it the other way.
/// Where the shares agree, each part gets what its share asks for, one behind the other.
pub open spec fn parted(vertical: bool, shares: Seq<Share>, area: Rect, parts: Seq<Rect>) -> bool {
    let start = start_of(vertical, area);
    let end = end_of(vertical, area);
    &&& parts.len() == shares.len()
    &&& forall|i: int|
        0 <= i < parts.len() ==> start_of(!vertical, #[trigger] parts[i]) == start_of(
            !vertical,
            area,
        ) && end_of(!vertical, parts[i]) == end_of(!vertical, area)
    &&& end <= u16::MAX ==> forall|i: int|
        0 <= i < parts.len() ==> start <= start_of(vertical, #[trigger] parts[i]) && end_of(
            vertical,
            parts[i],
        ) <= end
    &&& end <= u16::MAX && agree(shares, end - start) ==> forall|i: int|
        0 <= i < parts.len() ==> start_of(vertical, #[trigger] parts[i]) == edge(
            shares,
            start,
            end - start,
            i,
        ) && end_of(vertical, parts[i]) == edge(shares, start, end - start, i + 1)
}

/// `Layout::split` of ratatui, for a layout without margins or spacing. The parts lie in the
/// place and reach across it the other way. Where the shares agree, a length and a
/// percentage of the place are given as they are asked for, and `Min` gets the rest; the
/// edges between the parts are rounded. Which share goes short where they do not agree is
/// left unsaid: the solver walks hash maps, and it can be another one each time.
#[verifier::external_body]
pub(crate) fn split(vertical: bool, shares: &Vec<Share>, area: Rect) -> (r: Vec<Rect>)
    ensures
        parted(vertical, shares@, area, r@),
{
    let constraints = shares.iter().map(|s| match *s {
        Share::Length(n) => layout::Constraint::Length(n),
        Share::Min(n) => layout::Constraint::Min(n),
        Share::Percentage(n) => layout::Constraint::Percentage(n),
    });
    let direction = if vertical {
        layout::Direction::Vertical
    } else {
        layout::Direction::Horizontal
    };
    let Rect { x, y, width, height } = area;
    let whole = layout::Rect { x, y, width, height };
    let parts = layout::Layout::new(direction, constraints).split(whole);
    parts.iter().map(|p| Rect { x: p.x, y: p.y, width: p.width, height: p.height }).collect()
}

/// What a border all round leaves of a place.
pub open spec fn inside(area: Rect) -> Rect {
    Rect {
        x: if area.width == 0 || area.x == u16::MAX {
            area.x
        } else {
            (area.x + 1) as u16
        },
        y: if area.height == 0 || area.y == u16::MAX {
            area.y
        } else {
            (area.y + 1) as u16
        },
        width: if area.width < 2 {
            0
        } else {
            (area.width - 2) as u16
        },
        height: if area.height < 2 {
            0
        } else {
            (area.height - 2) as u16
        },
    }
}

/// `Block::inner` of ratatui for a block with a border on every side: a column or row less
/// at each edge, as far as there are any.
#[verifier::external_body]
pub(crate) fn inner(area: Rect) -> (r: Rect)
    ensures
        r == inside(area),
{
    let Rect { x, y, width, height } = area;
    let block = ratatui::widgets::Block::bordered();
    let p = block.inner(layout::Rect { x, y, width, height });
    Rect { x: p.x, y: p.y, width: p.width, height: p.height }
}

/// How many panes are shown.
pub open spec fn pane_count(app: App) -> int {
    1 + (if app.show_servers {
        1int
    } else {
        0
    }) + (if app.show_channels {
        1int
    } else {
        0
    }) + (if app.show_members {
        1int
    } else {
        0
    })
}

/// Which of the panes is the one with the messages.
pub open spec fn message_pane(app: App) -> int {
    (if app.show_servers {
        1int
    } else {
        0
    }) + (if app.show_channels {
        1int
    } else {
        0
    })
}

/// What the panes that are shown get of the screen's width.
pub open spec fn pane_shares(app: App) -> Seq<Share> {
    (if app.show_servers {
        seq![Share::Length(20)]
    } else {
        Seq::empty()
    }) + (if app.show_channels {
        seq![Share::Length(24)]
    } else {
        Seq::empty()
    }) + seq![Share::Min(20)] + (if app.show_members {
        seq![Share::Length(22)]
    } else {
        Seq::empty()
    })
}

/// How many columns the other panes leave for the messages.
pub open spec fn message_columns(app: App, area: Rect) -> int {
    area.width - (if app.show_servers {
        20int
    } else {
        0
    }) - (if app.show_channels {
        24int
    } else {
        0
    }) - (if app.show_members {
        22int
    } else {
        0
    })
}

pub fn pane_constraints(app: &App) -> (r: Vec<Share>)
    ensures
        r@ == pane_shares(*app),
        r@.len() == pane_count(*app),
{
    let mut out: Vec<Share> = Vec::new();
    if app.show_servers {
        out.push(Share::Length(20));
    }
    if app.show_channels {
        out.push(Share::Length(24));
    }
    out.push(Share::Min(20));
    if app.show_members {
        out.push(Share::Length(22));
    }
    assert(out@ =~= pane_shares(*app));
    out
}

/// How many lines the composer's text has, as far as the screen can count.
pub open spec fn composer_lines(app: App) -> u16 {
    text::lines_of(app.composer@).len() as u16
}

/// How high the composer is: it grows with its text up to two lines while it is open.
pub open spec fn composer_rows(app: App) -> u16 {
    if app.composer_open {
        if composer_lines(app) >= 2 {
            7
        } else {
            (5 + composer_lines(app)) as u16
        }
    } else {
        3
    }
}

pub fn composer_height(app: &App) -> (r: u16)
    ensures
        r == composer_rows(*app),
{
    if app.composer_open {
        let lines = text::lines(app.composer.as_str());
        assert(text::texts(lines@).len() == lines@.len());
        let n: u16 = lines.len() as u16;
        if n >= 2 {
            7
        } else {
            5 + n
        }
    } else {
        3
    }
}

/// The shares of a place whose middle part gets `pct` of a hundred.
pub open spec fn middle_shares(pct: u16) -> Seq<Share> {
    let side = Share::Percentage(((100 - pct) / 2) as u16);
    seq![side, Share::Percentage(pct), side]
}

pub fn middle_constraints(pct: u16) -> (r: Vec<Share>)
    requires
        pct <= 100,
    ensures
        r@ == middle_shares(pct),
{
    let side: u16 = (100 - pct) / 2;
    let r: Vec<Share> = vec![
        Share::Percentage(side),
        Share::Percentage(pct),
        Share::Percentage(side),
    ];
    assert(r@ =~= middle_shares(pct));
    r
}

/// The middle of a place, which gets so many of a hundred each way.
pub open spec fn is_centered(area: Rect, pct_x: u16, pct_y: u16, r: Rect) -> bool {
    exists|across: Seq<Rect>, down: Seq<Rect>| #[trigger]
        parted(false, middle_shares(pct_x), area, across) && #[trigger] parted(
            true,
            middle_shares(pct_y),
            across[1],
            down,
        ) && r == down[1]
}

/// What is centered lies in the place, between margins of the same size up to rounding.
pub proof fn law_the_middle_is_centered(area: Rect, pct_x: u16, pct_y: u16, r: Rect)
    requires
        is_centered(area, pct_x, pct_y, r),
        pct_x <= 100,
        pct_y <= 100,
        area.x + area.width <= u16::MAX,
        area.y + area.height <= u16::MAX,
    ensures
        r.x == area.x + (area.width * ((100 - pct_x) / 2) + 50) / 100,
        r.x + r.width == area.x + (area.width * ((100 - pct_x) / 2 + pct_x) + 50) / 100,
        r.y == area.y + (area.height * ((100 - pct_y) / 2) + 50) / 100,
        r.y + r.height == area.y + (area.height * ((100 - pct_y) / 2 + pct_y) + 50) / 100,
        r.x + r.width <= area.x + area.width,
        r.y + r.height <= area.y + area.height,
{
    reveal_with_fuel(asked, 4);
    let (across, down) = choose|across: Seq<Rect>, down: Seq<Rect>| #[trigger]
        parted(false, middle_shares(pct_x), area, across) && #[trigger] parted(
            true,
            middle_shares(pct_y),
            across[1],
            down,
        ) && r == down[1];
    lemma_middle_shares_agree(pct_x, area.width as int);
    lemma_middle_shares_agree(pct_y, area.height as int);
    assert(across[1].height == area.height);
}

proof fn lemma_middle_shares_agree(pct: u16, size: int)
    requires
        pct <= 100,
        0 <= size,
    ensures
        agree(middle_shares(pct), size),
        asked(middle_shares(pct), size, left_over(middle_shares(pct), size), 1) == size * ((100
            - pct) / 2),
        asked(middle_shares(pct), size, left_over(middle_shares(pct), size), 2) == size * ((100
            - pct) / 2 + pct),
{
    reveal_with_fuel(asked, 4);
    let side: int = (100 - pct) / 2;
    assert(size * side + size * pct == size * (side + pct)) by (nonlinear_arith);
    assert(size * side + size * pct + size * side == size * (2 * side + pct)) by (nonlinear_arith);
    assert(size * (2 * side + pct) <= size * 100) by (nonlinear_arith)
        requires
            0 <= size,
            2 * side + pct <= 100,
    ;
}

pub(crate) fn centered(area: Rect, pct_x: u16, pct_y: u16) -> (r: Rect)
    requires
        pct_x <= 100,
        pct_y <= 100,
    ensures
        is_centered(area, pct_x, pct_y, r),
{
    let across = split(false, &middle_constraints(pct_x), area);
    let down = split(true, &middle_constraints(pct_y), across[1]);
    down[1]
}

/// Where everything is drawn.
#[derive(Debug)]
pub struct Places {
    pub header: Rect,
    pub panes: Vec<Rect>,
    pub messages: Rect,
    pub composer: Rect,
    pub status: Rect,
    pub popup: Rect,
}

impl Places {
    /// There is a place for every pane.
    pub open spec fn fits(self, app: App) -> bool {
        self.panes@.len() == pane_count(app)
    }

    /// The header is the first row and the line at the bottom the last one. The panes stand
    /// side by side between them, with the composer below the messages. The popup is in the
    /// middle of the screen.
    pub open spec fn arranged(self, app: App, area: Rect) -> bool {
        &&& exists|panes: Rect| #[trigger]
            parted(false, pane_shares(app), panes, self.panes@) && parted(
                true,
                seq![Share::Length(1), Share::Min(0), Share::Length(1)],
                area,
                seq![self.header, panes, self.status],
            )
        &&& parted(
            true,
            seq![Share::Min(5), Share::Length(composer_rows(app))],
            self.panes@[message_pane(app)],
            seq![self.messages, self.composer],
        )
        &&& if app.popup == Popup::ConfirmDelete || app.popup == Popup::ConfirmLogout {
            is_centered(area, 50, 20, self.popup)
        } else {
            is_centered(area, 70, 60, self.popup)
        }
    }
}

/// On a screen that is large enough for all of it, nothing overlaps and nothing is left
/// over: one row for the header and one for the line at the bottom, the panes side by side
/// from edge to edge with the messages as wide as the others leave room for, and the composer
/// below them.
pub proof fn law_the_screen_is_filled(app: App, area: Rect, p: Places)
    requires
        p.arranged(app, area),
        area.x + area.width <= u16::MAX,
        area.y + area.height <= u16::MAX,
        20 <= message_columns(app, area),
        2 + 5 + composer_rows(app) <= area.height,
    ensures
        p.header == (Rect { height: 1, ..area }),
        p.status == (Rect { y: (area.y + area.height - 1) as u16, height: 1, ..area }),
        p.panes@.len() == pane_count(app),
        forall|i: int|
            0 <= i < p.panes@.len() ==> (#[trigger] p.panes@[i]).y == area.y + 1
                && p.panes@[i].height == area.height - 2,
        p.panes@[0].x == area.x,
        forall|i: int|
            0 <= i < p.panes@.len() - 1 ==> end_of(false, #[trigger] p.panes@[i])
                == p.panes@[i + 1].x,
        end_of(false, p.panes@.last()) == area.x + area.width,
        p.messages == (Rect {
            height: (area.height - 2 - composer_rows(app)) as u16,
            ..p.panes@[message_pane(app)]
        }),
        p.messages.width == message_columns(app, area),
        app.show_servers ==> p.panes@[0].width == 20,
        app.show_channels ==> p.panes@[if app.show_servers {
            1
        } else {
            0
        }].width == 24,
        app.show_members ==> p.panes@.last().width == 22,
        p.composer == (Rect {
            y: (area.y + area.height - 1 - composer_rows(app)) as u16,
            height: composer_rows(app),
            ..p.panes@[message_pane(app)]
        }),
{
    reveal_with_fuel(asked, 5);
    let rows = seq![Share::Length(1), Share::Min(0), Share::Length(1)];
    let panes = choose|panes: Rect| #[trigger]
        parted(false, pane_shares(app), panes, p.panes@) && parted(
            true,
            rows,
            area,
            seq![p.header, panes, p.status],
        );
    assert(agree(rows, area.height as int));
    let parts = seq![p.header, panes, p.status];
    assert(parts[0] == p.header && parts[1] == panes && parts[2] == p.status);
    assert(agree(pane_shares(app), area.width as int));
    let chunks = seq![p.messages, p.composer];
    assert(chunks[0] == p.messages && chunks[1] == p.composer);
    assert(agree(
        seq![Share::Min(5), Share::Length(composer_rows(app))],
        area.height - 2,
    ));
}

/// Finds a place for everything on a screen.
pub fn arrange(app: &App, area: Rect) -> (r: Places)
    ensures
        r.arranged(*app, area),
        r.fits(*app),
{
    let rows: Vec<Share> = vec![Share::Length(1), Share::Min(0), Share::Length(1)];
    let root = split(true, &rows, area);
    let panes = split(false, &pane_constraints(app), root[1]);
    let mut at: usize = 0;
    if app.show_servers {
        at += 1;
    }
    if app.show_channels {
        at += 1;
    }
    let parts: Vec<Share> = vec![Share::Min(5), Share::Length(composer_height(app))];
    let chunks = split(true, &parts, panes[at]);
    assert(rows@ =~= seq![Share::Length(1), Share::Min(0), Share::Length(1)]);
    assert(root@ =~= seq![root@[0], root@[1], root@[2]]);
    assert(parts@ =~= seq![Share::Min(5), Share::Length(composer_rows(*app))]);
    assert(chunks@ =~= seq![chunks@[0], chunks@[1]]);
    let popup = if app.popup == Popup::ConfirmDelete || app.popup == Popup::ConfirmLogout {
        centered(area, 50, 20)
    } else {
        centered(area, 70, 60)
    };
    Places {
        header: root[0],
        panes,
        messages: chunks[0],
        composer: chunks[1],
        status: root[2],
        popup,
    }
}

// ---------------------------------------------------------------------------
// Widgets
// ---------------------------------------------------------------------------

/// A border with a title.
#[derive(Debug)]
pub struct Block {
    pub title: String,
    pub border_style: Style,
    pub rounded: bool,
    pub style: Style,
}

pub struct BlockView {
    pub title: Seq<char>,
    pub border_style: Style,
    pub rounded: bool,
    pub style: Style,
}

impl View for Block {
    type V = BlockView;

    open spec fn view(&self) -> BlockView {
        BlockView {
            title: self.title@,
            border_style: self.border_style,
            rounded: self.rounded,
            style: self.style,
        }
    }
}

/// What can be drawn.
#[derive(Debug)]
#[allow(inconsistent_fields)]
pub enum Widget {
    /// Nothing, over whatever is there.
    Clear,
    Border(Block),
    /// Lines, in a border or not, wrapped where they are too long or not.
    Paragraph { block: Option<Block>, lines: Vec<Line>, wrap: bool },
    /// Rows, each in its line's style from edge to edge.
    List { block: Block, items: Vec<Line> },
}

#[allow(inconsistent_fields)]
pub enum WidgetView {
    Clear,
    Border(BlockView),
    Paragraph { block: Option<BlockView>, lines: Seq<style::LineView>, wrap: bool },
    List { block: BlockView, items: Seq<style::LineView> },
}

impl View for Widget {
    type V = WidgetView;

    open spec fn view(&self) -> WidgetView {
        match self {
            Widget::Clear => WidgetView::Clear,
            Widget::Border(b) => WidgetView::Border(b@),
            Widget::Paragraph { block, lines, wrap } => WidgetView::Paragraph {
                block: match block {
                    Some(b) => Some(b@),
                    None => None,
                },
                lines: style::line_views(lines@),
                wrap: *wrap,
            },
            Widget::List { block, items } => WidgetView::List {
                block: block@,
                items: style::line_views(items@),
            },
        }
    }
}

/// A widget in its place.
#[derive(Debug)]
pub struct Placed {
    pub area: Rect,
    pub widget: Widget,
}

pub struct PlacedView {
    pub area: Rect,
    pub widget: WidgetView,
}

impl View for Placed {
    type V = PlacedView;

    open spec fn view(&self) -> PlacedView {
        PlacedView { area: self.area, widget: self.widget@ }
    }
}

pub open spec fn placed_views(v: Seq<Placed>) -> Seq<PlacedView> {
    v.map_values(|p: Placed| p@)
}

pub fn place(out: &mut Vec<Placed>, area: Rect, widget: Widget)
    ensures
        placed_views(final(out)@) == placed_views(old(out)@).push(
            (PlacedView { area, widget: widget@ }),
        ),
{
    out.push(Placed { area, widget });
    assert(placed_views(out@) =~= placed_views(old(out)@).push(
        (PlacedView { area, widget: widget@ }),
    ));
}

/// A line of two spans.
pub fn line2(a: Span, b: Span) -> (r: Line)
    ensures
        r@ == style::plain_line(seq![a@, b@]),
{
    let spans: Vec<Span> = vec![a, b];
    assert(style::span_views(spans@) =~= seq![a@, b@]);
    Line::plain(spans)
}

/// A line of three spans.
pub fn line3(a: Span, b: Span, c: Span) -> (r: Line)
    ensures
        r@ == style::plain_line(seq![a@, b@, c@]),
{
    let spans: Vec<Span> = vec![a, b, c];
    assert(style::span_views(spans@) =~= seq![a@, b@, c@]);
    Line::plain(spans)
}

/// One line, at the end.
pub fn push_line(lines: &mut Vec<Line>, l: Line)
    ensures
        style::line_views(final(lines)@) == style::line_views(old(lines)@).push(l@),
{
    lines.push(l);
    assert(style::line_views(lines@) =~= style::line_views(old(lines)@).push(l@));
}

/// One span, at the end.
pub fn push_span(spans: &mut Vec<Span>, s: Span)
    ensures
        style::span_views(final(spans)@) == style::span_views(old(spans)@).push(s@),
{
    spans.push(s);
    assert(style::span_views(spans@) =~= style::span_views(old(spans)@).push(s@));
}

/// The border of a pane, which stands out while the pane has the keys.
pub open spec fn pane_border(title: Seq<char>, focused: bool) -> BlockView {
    BlockView {
        title: " "@ + title + " "@,
        border_style: if focused {
            Style::new().fg(Color::Cyan).bold()
        } else {
            Style::new().fg(Color::DarkGray)
        },
        rounded: true,
        style: Style::new(),
    }
}

pub fn pane_block(title: &str, focused: bool) -> (r: Block)
    ensures
        r@ == pane_border(title@, focused),
{
    let mut shown = text::joined(" ", title);
    shown.append(" ");
    Block {
        title: shown,
        border_style: if focused {
            Style::new().fg(Color::Cyan).bold()
        } else {
            Style::new().fg(Color::DarkGray)
        },
        rounded: true,
        style: Style::new(),
    }
}

/// The mark in front of what is selected.
pub open spec fn marker(selected: bool) -> style::SpanView {
    style::styled(
        if selected {
            "▸ "@
        } else {
            "  "@
        },
        Style::new().fg(Color::Cyan).bold(),
    )
}

pub fn marker_span(selected: bool) -> (r: Span)
    ensures
        r@ == marker(selected),
{
    Span::styled(
        if selected {
            "▸ ".to_owned()
        } else {
            "  ".to_owned()
        },
        Style::new().fg(Color::Cyan).bold(),
    )
}

/// A row of a pane: in grey where it is selected and the pane has the keys.
pub open spec fn row(spans: Seq<style::SpanView>, lit: bool) -> style::LineView {
    style::LineView {
        spans,
        style: if lit {
            Style::new().bg(Color::DarkGray)
        } else {
            Style::new()
        },
    }
}

fn make_row(spans: Vec<Span>, lit: bool) -> (r: Line)
    ensures
        r@ == row(style::span_views(spans@), lit),
{
    Line {
        spans,
        style: if lit {
            Style::new().bg(Color::DarkGray)
        } else {
            Style::new()
        },
    }
}

// ---------------------------------------------------------------------------
// Header and line at the bottom
// ---------------------------------------------------------------------------

/// What the header says: the selected server and channel, and the channel's topic.
pub open spec fn header_text(app: App) -> Seq<char> {
    " tuimessager · "@ + (match app.server() {
        Some(s) => s.name@,
        None => "—"@,
    }) + " · #"@ + (match app.channel() {
        Some(c) => c.name@,
        None => "—"@,
    }) + "  "@ + (match app.channel() {
        Some(c) => match c.topic {
            Some(t) => t@,
            None => Seq::empty(),
        },
        None => Seq::empty(),
    })
}

pub open spec fn header_view(app: App) -> WidgetView {
    WidgetView::Paragraph {
        block: None,
        lines: seq![
            style::plain_line(
                seq![style::styled(header_text(app), Style::new().fg(Color::Cyan).bold())],
            ),
        ],
        wrap: false,
    }
}

pub(crate) fn one_line(l: Line) -> (r: Vec<Line>)
    ensures
        style::line_views(r@) == seq![l@],
{
    let r: Vec<Line> = vec![l];
    assert(style::line_views(r@) =~= seq![l@]);
    r
}

pub fn draw_header(app: &App) -> (r: Widget)
    ensures
        r@ == header_view(*app),
{
    let server = match app.selected_server() {
        Some(s) => s.name.as_str(),
        None => "—",
    };
    let mut title = text::joined(" tuimessager · ", server);
    title.append(" · #");
    match app.selected_channel() {
        Some(c) => {
            title.append(c.name.as_str());
            title.append("  ");
            if let Some(t) = &c.topic {
                title.append(t.as_str());
            }
        },
        None => {
            title.append("—");
            title.append("  ");
        },
    }
    assert(title@ =~= header_text(*app));
    Widget::Paragraph {
        block: None,
        lines: one_line(Line::styled(title, Style::new().fg(Color::Cyan).bold())),
        wrap: false,
    }
}

/// How many notifications were not read.
pub open spec fn unread_count(ns: Seq<Notification>) -> nat
    decreases ns.len(),
{
    if ns.len() == 0 {
        0
    } else {
        unread_count(ns.drop_last()) + (if ns.last().read {
            0nat
        } else {
            1nat
        })
    }
}

fn count_unread(ns: &Vec<Notification>) -> (r: usize)
    ensures
        r == unread_count(ns@),
{
    let mut n: usize = 0;
    let mut i: usize = 0;
    assert(ns@.take(0) =~= Seq::empty());
    while i < ns.len()
        invariant
            i <= ns@.len(),
            n == unread_count(ns@.take(i as int)),
            n <= i,
        decreases ns@.len() - i,
    {
        assert(ns@.take(i + 1).drop_last() =~= ns@.take(i as int));
        if !ns[i].read {
            n += 1;
        }
        i += 1;
    }
    assert(ns@.take(i as int) =~= ns@);
    n
}

/// What the line at the bottom says: the news, or else the keys and how much is unread.
pub open spec fn status_text(app: App) -> Seq<char> {
    if app.status@.len() == 0 {
        " 1-4 focus · Tab cycle · / search · Space shortcuts · i compose · q quit"@ + (
        if unread_count(app.notifications@) > 0 {
            " · inbox("@ + text::decimal_text(unread_count(app.notifications@)) + ")"@
        } else {
            Seq::empty()
        })
    } else {
        " "@ + app.status@
    }
}

pub open spec fn status_view(app: App) -> WidgetView {
    WidgetView::Paragraph {
        block: None,
        lines: seq![
            style::plain_line(
                seq![style::styled(status_text(app), Style::new().fg(Color::DarkGray))],
            ),
        ],
        wrap: false,
    }
}

pub fn draw_status(app: &App) -> (r: Widget)
    ensures
        r@ == status_view(*app),
{
    let shown = if app.status.as_str().is_empty() {
        let unread = count_unread(&app.notifications);
        let mut s =
            " 1-4 focus · Tab cycle · / search · Space shortcuts · i compose · q quit".to_owned();
        if unread > 0 {
            let number = text::decimal(unread as u64);
            let mut inbox = text::joined(" · inbox(", number.as_str());
            inbox.append(")");
            s.append(inbox.as_str());
        }
        assert(s@ =~= status_text(*app));
        s
    } else {
        text::joined(" ", app.status.as_str())
    };
    Widget::Paragraph {
        block: None,
        lines: one_line(Line::styled(shown, Style::new().fg(Color::DarkGray))),
        wrap: false,
    }
}

// ---------------------------------------------------------------------------
// Servers, channels, members
// ---------------------------------------------------------------------------

/// A row of the servers' pane.
pub open spec fn server_row(app: App, i: int) -> style::LineView {
    let s = app.servers@[i];
    row(
        seq![marker(i == app.server_idx), style::raw(s.name@)] + (if s.mentioned {
            seq![style::styled(" [@]"@, Style::new().fg(Color::Rgb(255, 165, 0)))]
        } else if s.unread {
            seq![style::styled(" •"@, Style::new().fg(Color::Green).bold())]
        } else {
            Seq::empty()
        }),
        i == app.server_idx && app.focus == Focus::Servers,
    )
}

pub open spec fn servers_view(app: App) -> WidgetView {
    WidgetView::List {
        block: pane_border("Servers"@, app.focus == Focus::Servers),
        items: Seq::new(app.servers@.len(), |i: int| server_row(app, i)),
    }
}

fn make_server_row(app: &App, i: usize) -> (r: Line)
    requires
        i < app.servers@.len(),
    ensures
        r@ == server_row(*app, i as int),
{
    let s = &app.servers[i];
    let mut spans: Vec<Span> = vec![
        marker_span(i == app.server_idx),
        Span::raw(s.name.clone()),
    ];
    assert(style::span_views(spans@) =~= seq![
        marker(i == app.server_idx),
        style::raw(s.name@),
    ]);
    if s.mentioned {
        push_span(
            &mut spans,
            Span::styled(" [@]".to_owned(), Style::new().fg(Color::Rgb(255, 165, 0))),
        );
    } else if s.unread {
        push_span(
            &mut spans,
            Span::styled(" •".to_owned(), Style::new().fg(Color::Green).bold()),
        );
    }
    assert(style::span_views(spans@) =~= server_row(*app, i as int).spans);
    make_row(spans, i == app.server_idx && app.focus == Focus::Servers)
}

pub fn draw_servers(app: &App) -> (r: Widget)
    ensures
        r@ == servers_view(*app),
{
    let mut items: Vec<Line> = Vec::new();
    let mut i: usize = 0;
    while i < app.servers.len()
        invariant
            i <= app.servers@.len(),
            items@.len() == i,
            forall|k: int| 0 <= k < i ==> (#[trigger] items@[k])@ == server_row(*app, k),
        decreases app.servers@.len() - i,
    {
        items.push(make_server_row(app, i));
        i += 1;
    }
    assert(style::line_views(items@) =~= Seq::new(
        app.servers@.len(),
        |i: int| server_row(*app, i),
    ));
    Widget::List { block: pane_block("Servers", app.focus == Focus::Servers), items }
}

/// The sign of a kind of channel.
pub open spec fn kind_icon(kind: ChannelKind) -> Seq<char> {
    match kind {
        ChannelKind::Thread => "🧵"@,
        ChannelKind::ForumPost => "📝"@,
        ChannelKind::VoicePlaceholder => "🔊"@,
        ChannelKind::Direct => "✉"@,
        ChannelKind::Announcement => "📢"@,
        ChannelKind::Text => "#"@,
    }
}

fn icon_of(kind: ChannelKind) -> (r: &'static str)
    ensures
        r@ == kind_icon(kind),
{
    match kind {
        ChannelKind::Thread => "🧵",
        ChannelKind::ForumPost => "📝",
        ChannelKind::VoicePlaceholder => "🔊",
        ChannelKind::Direct => "✉",
        ChannelKind::Announcement => "📢",
        ChannelKind::Text => "#",
    }
}

/// A row of the channels' pane.
pub open spec fn channel_row(app: App, i: int) -> style::LineView {
    let c = app.channels@[i];
    row(
        seq![
            marker(i == app.channel_idx),
            style::styled(kind_icon(c.kind) + " "@, Style::new().fg(Color::DarkGray)),
            style::raw(c.name@),
        ] + (if c.mentioned {
            seq![style::styled(" [@]"@, Style::new().fg(Color::Rgb(255, 165, 0)))]
        } else if c.unread_count > 0 {
            seq![
                style::styled(
                    " ("@ + text::decimal_text(c.unread_count as nat) + ")"@,
                    Style::new().fg(Color::Green),
                ),
            ]
        } else {
            Seq::empty()
        }),
        i == app.channel_idx && app.focus == Focus::Channels,
    )
}

pub open spec fn channels_view(app: App) -> WidgetView {
    WidgetView::List {
        block: pane_border("Channels"@, app.focus == Focus::Channels),
        items: Seq::new(app.channels@.len(), |i: int| channel_row(app, i)),
    }
}

fn make_channel_row(app: &App, i: usize) -> (r: Line)
    requires
        i < app.channels@.len(),
    ensures
        r@ == channel_row(*app, i as int),
{
    let c = &app.channels[i];
    let icon = text::joined(icon_of(c.kind), " ");
    let mut spans: Vec<Span> = vec![
        marker_span(i == app.channel_idx),
        Span::styled(icon, Style::new().fg(Color::DarkGray)),
        Span::raw(c.name.clone()),
    ];
    assert(style::span_views(spans@) =~= seq![
        marker(i == app.channel_idx),
        style::styled(kind_icon(c.kind) + " "@, Style::new().fg(Color::DarkGray)),
        style::raw(c.name@),
    ]);
    if c.mentioned {
        push_span(
            &mut spans,
            Span::styled(" [@]".to_owned(), Style::new().fg(Color::Rgb(255, 165, 0))),
        );
    } else if c.unread_count > 0 {
        let number = text::decimal(c.unread_count);
        let mut count = text::joined(" (", number.as_str());
        count.append(")");
        push_span(&mut spans, Span::styled(count, Style::new().fg(Color::Green)));
    }
    assert(style::span_views(spans@) =~= channel_row(*app, i as int).spans);
    make_row(spans, i == app.channel_idx && app.focus == Focus::Channels)
}

pub fn draw_channels(app: &App) -> (r: Widget)
    ensures
        r@ == channels_view(*app),
{
    let mut items: Vec<Line> = Vec::new();
    let mut i: usize = 0;
    while i < app.channels.len()
        invariant
            i <= app.channels@.len(),
            items@.len() == i,
            forall|k: int| 0 <= k < i ==> (#[trigger] items@[k])@ == channel_row(*app, k),
        decreases app.channels@.len() - i,
    {
        items.push(make_channel_row(app, i));
        i += 1;
    }
    assert(style::line_views(items@) =~= Seq::new(
        app.channels@.len(),
        |i: int| channel_row(*app, i),
    ));
    Widget::List { block: pane_block("Channels", app.focus == Focus::Channels), items }
}

/// The dot that says whether someone is there.
pub open spec fn presence_dot(p: Presence) -> style::SpanView {
    match p {
        Presence::Online => style::styled("● "@, Style::new().fg(Color::Green)),
        Presence::Idle => style::styled("● "@, Style::new().fg(Color::Yellow)),
        Presence::Dnd => style::styled("● "@, Style::new().fg(Color::Red)),
        Presence::Offline => style::styled("○ "@, Style::new().dim()),
    }
}

fn dot_of(p: Presence) -> (r: Span)
    ensures
        r@ == presence_dot(p),
{
    match p {
        Presence::Online => Span::styled("● ".to_owned(), Style::new().fg(Color::Green)),
        Presence::Idle => Span::styled("● ".to_owned(), Style::new().fg(Color::Yellow)),
        Presence::Dnd => Span::styled("● ".to_owned(), Style::new().fg(Color::Red)),
        Presence::Offline => Span::styled("○ ".to_owned(), Style::new().dim()),
    }
}

/// A row of the members' pane.
pub open spec fn member_row(app: App, i: int) -> style::LineView {
    let m = app.members@[i];
    row(
        seq![
            marker(i == app.member_idx),
            presence_dot(m.presence),
            style::raw(m.user.shown_name()),
        ],
        i == app.member_idx && app.focus == Focus::Members,
    )
}

pub open spec fn members_view(app: App) -> WidgetView {
    WidgetView::List {
        block: pane_border("Members"@, app.focus == Focus::Members),
        items: Seq::new(app.members@.len(), |i: int| member_row(app, i)),
    }
}

fn make_member_row(app: &App, i: usize) -> (r: Line)
    requires
        i < app.members@.len(),
    ensures
        r@ == member_row(*app, i as int),
{
    let m = &app.members[i];
    let spans: Vec<Span> = vec![
        marker_span(i == app.member_idx),
        dot_of(m.presence),
        Span::raw(m.user.display().to_owned()),
    ];
    assert(style::span_views(spans@) =~= member_row(*app, i as int).spans);
    make_row(spans, i == app.member_idx && app.focus == Focus::Members)
}

pub fn draw_members(app: &App) -> (r: Widget)
    ensures
        r@ == members_view(*app),
{
    let mut items: Vec<Line> = Vec::new();
    let mut i: usize = 0;
    while i < app.members.len()
        invariant
            i <= app.members@.len(),
            items@.len() == i,
            forall|k: int| 0 <= k < i ==> (#[trigger] items@[k])@ == member_row(*app, k),
        decreases app.members@.len() - i,
    {
        items.push(make_member_row(app, i));
        i += 1;
    }
    assert(style::line_views(items@) =~= Seq::new(
        app.members@.len(),
        |i: int| member_row(*app, i),
    ));
    Widget::List { block: pane_block("Members", app.focus == Focus::Members), items }
}

// ---------------------------------------------------------------------------
// Messages and composer
// ---------------------------------------------------------------------------

/// The line above a message: who wrote it, when, and whether it was edited, is pinned or
/// answers another one. `time` is the time of day.
pub open spec fn message_header(m: Message, selected: bool, time: Seq<char>) -> style::LineView {
    style::plain_line(
        seq![
            marker(selected),
            style::styled(m.author.shown_name(), Style::new().bold()),
            style::styled(
                " "@ + time + (if m.edited_at is Some {
                    " (edited)"@
                } else {
                    ""@
                }) + (if m.pinned {
                    " 📌"@
                } else {
                    ""@
                }) + (if m.reply_to is Some {
                    " ↩"@
                } else {
                    ""@
                }),
                Style::new().fg(Color::DarkGray),
            ),
        ],
    )
}

fn make_header(m: &Message, selected: bool, time: &str) -> (r: Line)
    ensures
        r@ == message_header(*m, selected, time@),
{
    let mut info = text::joined(" ", time);
    info.append(if m.edited_at.is_some() {
        " (edited)"
    } else {
        ""
    });
    info.append(if m.pinned {
        " 📌"
    } else {
        ""
    });
    info.append(if m.reply_to.is_some() {
        " ↩"
    } else {
        ""
    });
    line3(
        marker_span(selected),
        Span::styled(m.author.display().to_owned(), Style::new().bold()),
        Span::styled(info, Style::new().fg(Color::DarkGray)),
    )
}

/// A line of a message's text, set in from the edge.
pub open spec fn indented(l: style::LineView) -> style::LineView {
    style::plain_line(seq![style::raw("    "@)] + l.spans)
}

fn indent_all(body: Vec<Line>) -> (r: Vec<Line>)
    ensures
        style::line_views(r@) == style::line_views(body@).map_values(
            |l: style::LineView| indented(l),
        ),
{
    let ghost want = style::line_views(body@).map_values(|l: style::LineView| indented(l));
    let ghost all = body@;
    let mut left = body;
    let mut out: Vec<Line> = Vec::new();
    while left.len() > 0
        invariant
            all.len() == want.len(),
            want == style::line_views(all).map_values(|l: style::LineView| indented(l)),
            out@.len() + left@.len() == all.len(),
            left@ =~= all.skip(out@.len() as int),
            style::line_views(out@) == want.take(out@.len() as int),
        decreases left@.len(),
    {
        let ghost n = out@.len() as int;
        let l = left.remove(0);
        assert(l == all[n]);
        let mut spans: Vec<Span> = vec![Span::raw("    ".to_owned())];
        assert(style::span_views(spans@) =~= seq![style::raw("    "@)]);
        style::extend_spans(&mut spans, l.spans);
        let made = Line::plain(spans);
        assert(made@ == want[n]);
        push_line(&mut out, made);
        assert(style::line_views(out@).len() == out@.len());
        assert(want.take(n + 1) =~= want.take(n).push(want[n]));
        assert(left@ =~= all.skip(n + 1));
    }
    assert(want.take(out@.len() as int) =~= want);
    out
}

/// How a reaction is shown: in another colour where it is also the user's own.
pub open spec fn reaction_chip(r: ReactionCount) -> style::SpanView {
    style::styled(
        " "@ + r.emoji@ + " "@ + text::decimal_text(r.count as nat) + " "@,
        if r.me {
            Style::new().fg(Color::Yellow)
        } else {
            Style::new().fg(Color::Cyan)
        },
    )
}

/// The line with the reactions, where there are any.
pub open spec fn reaction_lines(rs: Seq<ReactionCount>) -> Seq<style::LineView> {
    if rs.len() == 0 {
        Seq::empty()
    } else {
        seq![
            style::plain_line(
                seq![style::raw("    "@)] + rs.map_values(|r: ReactionCount| reaction_chip(r)),
            ),
        ]
    }
}

fn make_reactions(rs: &Vec<ReactionCount>) -> (r: Vec<Line>)
    ensures
        style::line_views(r@) == reaction_lines(rs@),
{
    let mut out: Vec<Line> = Vec::new();
    if rs.len() == 0 {
        assert(style::line_views(out@) =~= Seq::<style::LineView>::empty());
        return out;
    }
    let ghost want = seq![style::raw("    "@)] + rs@.map_values(
        |r: ReactionCount| reaction_chip(r),
    );
    let mut spans: Vec<Span> = vec![Span::raw("    ".to_owned())];
    assert(style::span_views(spans@) =~= want.take(1));
    let mut i: usize = 0;
    while i < rs.len()
        invariant
            i <= rs@.len(),
            want == seq![style::raw("    "@)] + rs@.map_values(
                |r: ReactionCount| reaction_chip(r),
            ),
            style::span_views(spans@) == want.take(i + 1),
        decreases rs@.len() - i,
    {
        let r = &rs[i];
        let number = text::decimal(r.count);
        let mut shown = text::joined(" ", r.emoji.as_str());
        shown.append(" ");
        shown.append(number.as_str());
        shown.append(" ");
        push_span(
            &mut spans,
            Span::styled(
                shown,
                if r.me {
                    Style::new().fg(Color::Yellow)
                } else {
                    Style::new().fg(Color::Cyan)
                },
            ),
        );
        assert(want[i + 1] == reaction_chip(rs@[i as int]));
        assert(want.take(i + 2) =~= want.take(i + 1).push(want[i + 1]));
        i += 1;
    }
    assert(want.take(i + 1) =~= want);
    out.push(Line::plain(spans));
    assert(style::line_views(out@) =~= seq![style::plain_line(want)]);
    out
}

/// The line of a file that came with a message.
pub open spec fn attachment_line(a: Attachment) -> style::LineView {
    style::plain_line(
        seq![
            style::raw("    "@),
            style::styled(
                "🖼 "@ + a.filename@ + " ("@ + a.url@ + ")"@,
                Style::new().fg(Color::Cyan).underlined(),
            ),
        ],
    )
}

fn make_attachments(v: &Vec<Attachment>) -> (r: Vec<Line>)
    ensures
        style::line_views(r@) == v@.map_values(|a: Attachment| attachment_line(a)),
{
    let mut out: Vec<Line> = Vec::new();
    let mut i: usize = 0;
    while i < v.len()
        invariant
            i <= v@.len(),
            out@.len() == i,
            forall|k: int| 0 <= k < i ==> (#[trigger] out@[k])@ == attachment_line(v@[k]),
        decreases v@.len() - i,
    {
        let a = &v[i];
        let mut shown = text::joined("🖼 ", a.filename.as_str());
        shown.append(" (");
        shown.append(a.url.as_str());
        shown.append(")");
        out.push(
            line2(
                Span::raw("    ".to_owned()),
                Span::styled(shown, Style::new().fg(Color::Cyan).underlined()),
            ),
        );
        i += 1;
    }
    assert(style::line_views(out@) =~= v@.map_values(|a: Attachment| attachment_line(a)));
    out
}

/// A message: the line above it, its text, its reactions, its files where images are shown,
/// and an empty line.
pub open spec fn message_block(app: App, i: int, time: Seq<char>) -> Seq<style::LineView> {
    let m = app.messages@[i];
    seq![message_header(m, i == app.msg_idx && app.focus == Focus::Messages, time)]
        + markdown::markdown_shown(m.content@).map_values(|l: style::LineView| indented(l))
        + reaction_lines(m.reactions@) + (if app.options.display.show_images {
        m.attachments@.map_values(|a: Attachment| attachment_line(a))
    } else {
        Seq::empty()
    }) + seq![style::plain_line(Seq::empty())]
}

fn make_message(app: &App, i: usize, time: &str) -> (r: Vec<Line>)
    requires
        i < app.messages@.len(),
    ensures
        style::line_views(r@) == message_block(*app, i as int, time@),
{
    let m = &app.messages[i];
    let mut out = one_line(
        make_header(m, i == app.msg_idx && app.focus == Focus::Messages, time),
    );
    let body = markdown::render_markdown(m.content.as_str());
    style::extend_lines(&mut out, indent_all(body));
    style::extend_lines(&mut out, make_reactions(&m.reactions));
    if app.options.display.show_images {
        style::extend_lines(&mut out, make_attachments(&m.attachments));
    }
    let blank = Line::plain(Vec::new());
    assert(blank@.spans =~= Seq::<style::SpanView>::empty());
    push_line(&mut out, blank);
    assert(style::line_views(out@) =~= message_block(*app, i as int, time@));
    out
}

/// The messages from the `i`th on.
pub open spec fn messages_from(app: App, times: Seq<Seq<char>>, i: int) -> Seq<style::LineView>
    decreases app.messages@.len() - i,
{
    if i < 0 || i >= app.messages@.len() {
        Seq::empty()
    } else {
        message_block(app, i, times[i]) + messages_from(app, times, i + 1)
    }
}

/// What the messages' pane shows, from the message that it is scrolled to on. `times` are
/// the times of day of the messages.
pub open spec fn message_lines(app: App, times: Seq<Seq<char>>) -> Seq<style::LineView> {
    if app.msg_scroll >= app.messages@.len() {
        seq![
            style::plain_line(
                seq![
                    style::styled(
                        "  No messages yet. Press i to compose."@,
                        Style::new().fg(Color::DarkGray).italic(),
                    ),
                ],
            ),
        ]
    } else {
        messages_from(app, times, app.msg_scroll as int)
    }
}

pub open spec fn messages_view(app: App, times: Seq<Seq<char>>) -> WidgetView {
    WidgetView::Paragraph {
        block: Some(pane_border("Messages"@, app.focus == Focus::Messages)),
        lines: message_lines(app, times),
        wrap: true,
    }
}

pub fn draw_messages(app: &App, times: &Vec<String>) -> (r: Widget)
    requires
        times@.len() == app.messages@.len(),
    ensures
        r@ == messages_view(*app, text::texts(times@)),
{
    let ghost ts = text::texts(times@);
    let mut lines: Vec<Line> = Vec::new();
    assert(style::line_views(lines@) =~= Seq::<style::LineView>::empty());
    if app.msg_scroll >= app.messages.len() {
        lines = one_line(
            Line::styled(
                "  No messages yet. Press i to compose.".to_owned(),
                Style::new().fg(Color::DarkGray).italic(),
            ),
        );
    } else {
        let mut i: usize = app.msg_scroll;
        let ghost want = messages_from(*app, ts, app.msg_scroll as int);
        assert(style::line_views(lines@) + want =~= want);
        while i < app.messages.len()
            invariant
                i <= app.messages@.len(),
                times@.len() == app.messages@.len(),
                ts == text::texts(times@),
                style::line_views(lines@) + messages_from(*app, ts, i as int) == want,
            decreases app.messages@.len() - i,
        {
            let ghost before = style::line_views(lines@);
            style::extend_lines(&mut lines, make_message(app, i, times[i].as_str()));
            assert(ts[i as int] == times@[i as int]@);
            assert(before + (message_block(*app, i as int, ts[i as int]) + messages_from(
                *app,
                ts,
                i + 1,
            )) =~= style::line_views(lines@) + messages_from(*app, ts, i + 1));
            i += 1;
        }
        assert(style::line_views(lines@) =~= want);
    }
    Widget::Paragraph {
        block: Some(pane_block("Messages", app.focus == Focus::Messages)),
        lines,
        wrap: true,
    }
}

/// The points in time at which the messages were written.
pub fn message_stamps(app: &App) -> (r: Vec<Timestamp>)
    ensures
        r@ == app.messages@.map_values(|m: Message| m.created_at),
{
    let mut out: Vec<Timestamp> = Vec::new();
    let mut i: usize = 0;
    while i < app.messages.len()
        invariant
            i <= app.messages@.len(),
            out@.len() == i,
            forall|k: int| 0 <= k < i ==> #[trigger] out@[k] == app.messages@[k].created_at,
        decreases app.messages@.len() - i,
    {
        out.push(app.messages[i].created_at);
        i += 1;
    }
    assert(out@ =~= app.messages@.map_values(|m: Message| m.created_at));
    out
}

/// The times of day of all messages, each of the point in time at which it was written. The
/// machine's time zone decides what a clock shows then.
pub fn message_times(app: &App) -> (r: Vec<String>)
    ensures
        r@.len() == app.messages@.len(),
        forall|i: int|
            0 <= i < r@.len() ==> time::is_time_of_day(
                (#[trigger] r@[i])@,
                app.options.display.hour_format_24,
            ),
{
    let stamps = message_stamps(app);
    let mut out: Vec<String> = Vec::new();
    let mut i: usize = 0;
    while i < stamps.len()
        invariant
            i <= stamps@.len(),
            out@.len() == i,
            forall|k: int|
                0 <= k < out@.len() ==> time::is_time_of_day(
                    (#[trigger] out@[k])@,
                    app.options.display.hour_format_24,
                ),
        decreases stamps@.len() - i,
    {
        out.push(app.format_time(&stamps[i]));
        i += 1;
    }
    out
}

/// What the composer's border says.
pub open spec fn composer_title(app: App) -> Seq<char> {
    if app.editing is Some {
        "Edit (Enter save, Esc cancel)"@
    } else if app.reply_to is Some {
        "Reply (Enter send, Esc cancel)"@
    } else if app.composer_open {
        "Composer (Enter send, Esc cancel)"@
    } else {
        "Composer (i to write)"@
    }
}

/// The composer's text, with a cursor behind it.
pub open spec fn composer_text(app: App) -> Seq<char> {
    if app.composer_open || app.composer@.len() > 0 {
        app.composer@ + "▊"@
    } else {
        Seq::empty()
    }
}

pub open spec fn composer_view(app: App) -> WidgetView {
    WidgetView::Paragraph {
        block: Some(pane_border(composer_title(app), app.composer_open)),
        lines: style::text_lines(composer_text(app)),
        wrap: true,
    }
}

pub fn draw_composer(app: &App) -> (r: Widget)
    ensures
        r@ == composer_view(*app),
{
    let title = if app.editing.is_some() {
        "Edit (Enter save, Esc cancel)"
    } else if app.reply_to.is_some() {
        "Reply (Enter send, Esc cancel)"
    } else if app.composer_open {
        "Composer (Enter send, Esc cancel)"
    } else {
        "Composer (i to write)"
    };
    let body = if app.composer_open || !app.composer.as_str().is_empty() {
        text::joined(app.composer.as_str(), "▊")
    } else {
        String::new()
    };
    Widget::Paragraph {
        block: Some(pane_block(title, app.composer_open)),
        lines: style::lines_from_text(body.as_str()),
        wrap: true,
    }
}

// ---------------------------------------------------------------------------
// Popups
// ---------------------------------------------------------------------------

/// The keys, explained.
pub open spec fn help_text() -> Seq<Seq<char>> {
    seq![
        "1/2/3/4 focus · Tab/S-Tab cycle · j/k move · gg/G top/bottom"@,
        "Ctrl-d/u half-page · i compose · Enter send · Esc close"@,
        "/ search · y copy · r react · R reply · e edit · d delete"@,
        "o open URL · Space Space switcher · Space a actions"@,
        "Space n inbox · Space o options · Space p profile · Space r redraw"@,
        "Space l log out · Space v voice placeholder"@,
        "Voice channels are UI placeholders in v1 (self-hosted audio roadmap)"@,
    ]
}

pub fn help_lines() -> (r: Vec<Line>)
    ensures
        style::line_views(r@) == help_text().map_values(|s: Seq<char>| style::text_line(s)),
{
    let r: Vec<Line> = vec![
        Line::from_text("1/2/3/4 focus · Tab/S-Tab cycle · j/k move · gg/G top/bottom"),
        Line::from_text("Ctrl-d/u half-page · i compose · Enter send · Esc close"),
        Line::from_text("/ search · y copy · r react · R reply · e edit · d delete"),
        Line::from_text("o open URL · Space Space switcher · Space a actions"),
        Line::from_text("Space n inbox · Space o options · Space p profile · Space r redraw"),
        Line::from_text("Space l log out · Space v voice placeholder"),
        Line::from_text("Voice channels are UI placeholders in v1 (self-hosted audio roadmap)"),
    ];
    assert(style::line_views(r@) =~= help_text().map_values(
        |s: Seq<char>| style::text_line(s),
    ));
    r
}

/// A row of the channel switcher.
pub open spec fn switcher_row(app: App, v: int) -> style::LineView {
    let c = app.channels@[app.switcher()[v].1 as int];
    style::plain_line(
        seq![
            marker(v == app.popup_idx),
            style::raw(
                "#"@ + c.name@ + "  "@ + (match c.topic {
                    Some(t) => t@,
                    None => Seq::empty(),
                }),
            ),
        ],
    )
}

fn switcher_rows(app: &App) -> (r: Vec<Line>)
    ensures
        style::line_views(r@) == Seq::new(
            app.switcher().len(),
            |v: int| switcher_row(*app, v),
        ),
{
    let items = app.switcher_items();
    proof {
        assert(app.servers.len() == app.servers@.len());
        assert(app.channels.len() == app.channels@.len());
        assert(app.messages.len() == app.messages@.len());
        assert(app.members.len() == app.members@.len());
        app::law_switcher_offers_the_best(*app);
    }
    let mut out: Vec<Line> = Vec::new();
    let mut v: usize = 0;
    while v < items.len()
        invariant
            v <= items@.len(),
            items@ == app.switcher(),
            forall|k: int| 0 <= k < items@.len() ==> (#[trigger] items@[k]).1
                < app.channels@.len(),
            out@.len() == v,
            forall|k: int| 0 <= k < v ==> (#[trigger] out@[k])@ == switcher_row(*app, k),
        decreases items@.len() - v,
    {
        let c = &app.channels[items[v].1];
        let mut shown = text::joined("#", c.name.as_str());
        shown.append("  ");
        if let Some(t) = &c.topic {
            shown.append(t.as_str());
        }
        assert(shown@ =~= "#"@ + c.name@ + "  "@ + (match c.topic {
            Some(t) => t@,
            None => Seq::empty(),
        }));
        out.push(line2(marker_span(v == app.popup_idx), Span::raw(shown)));
        v += 1;
    }
    assert(style::line_views(out@) =~= Seq::new(
        app.switcher().len(),
        |v: int| switcher_row(*app, v),
    ));
    out
}

/// How many notifications the inbox shows.
pub open spec fn inbox_len(app: App) -> nat {
    if app.notifications@.len() > 20 {
        20
    } else {
        app.notifications@.len()
    }
}

/// A row of the inbox.
pub open spec fn inbox_row(app: App, i: int) -> style::LineView {
    let n = app.notifications@[i];
    style::plain_line(
        seq![
            marker(i == app.popup_idx),
            style::styled(n.message.author.shown_name() + ": "@, Style::new().bold()),
            style::raw(text::first_chars(n.message.content@, 80)),
        ],
    )
}

fn inbox_rows(app: &App) -> (r: Vec<Line>)
    ensures
        style::line_views(r@) == Seq::new(inbox_len(*app), |i: int| inbox_row(*app, i)),
{
    let mut out: Vec<Line> = Vec::new();
    let mut i: usize = 0;
    while i < app.notifications.len() && i < 20
        invariant
            i <= inbox_len(*app),
            out@.len() == i,
            forall|k: int| 0 <= k < i ==> (#[trigger] out@[k])@ == inbox_row(*app, k),
        decreases app.notifications@.len() - i,
    {
        let n = &app.notifications[i];
        let from = text::joined(n.message.author.display(), ": ");
        let start = text::take_chars(n.message.content.as_str(), 80);
        out.push(
            line3(
                marker_span(i == app.popup_idx),
                Span::styled(from, Style::new().bold()),
                Span::raw(start),
            ),
        );
        i += 1;
    }
    assert(style::line_views(out@) =~= Seq::new(inbox_len(*app), |i: int| inbox_row(*app, i)));
    out
}

/// The picker's rows from the `i`th emoji on, of those that match its input; `v` of them
/// are above.
pub open spec fn emoji_rows_from(input: Seq<char>, chosen: usize, i: int, v: int) -> Seq<
    style::LineView,
>
    decreases 10 - i,
{
    if i < 0 || i >= 10 {
        Seq::empty()
    } else {
        let e = keys::emoji_at(i)->0;
        if text::trimmed(input).len() == 0 || text::contains_text(e, text::trimmed(input)) {
            seq![style::plain_line(seq![marker(v == chosen), style::raw(e)])] + emoji_rows_from(
                input,
                chosen,
                i + 1,
                v + 1,
            )
        } else {
            emoji_rows_from(input, chosen, i + 1, v)
        }
    }
}

fn emoji_rows(app: &App) -> (r: Vec<Line>)
    ensures
        style::line_views(r@) == emoji_rows_from(app.popup_input@, app.popup_idx, 0, 0),
{
    let query = text::trim(app.popup_input.as_str());
    let mut out: Vec<Line> = Vec::new();
    let mut v: usize = 0;
    let mut i: usize = 0;
    let ghost want = emoji_rows_from(app.popup_input@, app.popup_idx, 0, 0);
    assert(style::line_views(out@) + want =~= want);
    while i < 10
        invariant
            i <= 10,
            v <= i,
            query@ == text::trimmed(app.popup_input@),
            style::line_views(out@) + emoji_rows_from(
                app.popup_input@,
                app.popup_idx,
                i as int,
                v as int,
            ) == want,
        decreases 10 - i,
    {
        if let Some(e) = keys::emoji(i) {
            if query.as_str().is_empty() || text::contains(e, query.as_str()) {
                let ghost before = style::line_views(out@);
                push_line(
                    &mut out,
                    line2(marker_span(v == app.popup_idx), Span::raw(e.to_owned())),
                );
                assert(before + (seq![
                    style::plain_line(seq![marker(v == app.popup_idx), style::raw(e@)]),
                ] + emoji_rows_from(app.popup_input@, app.popup_idx, i + 1, v + 1))
                    =~= style::line_views(out@) + emoji_rows_from(
                    app.popup_input@,
                    app.popup_idx,
                    i + 1,
                    v + 1,
                ));
                v += 1;
            }
        }
        i += 1;
    }
    assert(style::line_views(out@) =~= want);
    out
}

/// The title of a popup.
pub open spec fn popup_title(popup: Popup) -> Seq<char> {
    match popup {
        Popup::Help => "Shortcuts (Space)"@,
        Popup::ChannelSwitcher => "Channel switcher (Space Space)"@,
        Popup::Search => "Search (/)"@,
        Popup::Inbox => "Inbox (Space n)"@,
        Popup::Emoji => "Emoji (:)"@,
        Popup::MessageActions => "Message actions (Space a)"@,
        _ => ""@,
    }
}

/// What a popup holds, below its input.
pub open spec fn popup_rows(app: App) -> Seq<style::LineView> {
    match app.popup {
        Popup::Help => help_text().map_values(|s: Seq<char>| style::text_line(s)),
        Popup::ChannelSwitcher => Seq::new(
            app.switcher().len(),
            |v: int| switcher_row(app, v),
        ),
        Popup::Search => seq![style::text_line("Query: "@ + app.popup_input@)],
        Popup::Inbox => Seq::new(inbox_len(app), |i: int| inbox_row(app, i)),
        Popup::Emoji => emoji_rows_from(app.popup_input@, app.popup_idx, 0, 0),
        Popup::MessageActions => seq![
            style::text_line(
                "y copy · r react · R reply · e edit · d delete · o open URL · P pin"@,
            ),
            style::text_line(
                "Voice: placeholder in v1 (no audio yet) · threads via #channels"@,
            ),
        ],
        _ => Seq::empty(),
    }
}

pub open spec fn popup_view(app: App) -> WidgetView {
    WidgetView::Paragraph {
        block: Some(pane_border(popup_title(app.popup), true)),
        lines: seq![
            style::plain_line(
                seq![
                    style::styled(
                        "Filter: "@ + app.popup_input@,
                        Style::new().fg(Color::DarkGray),
                    ),
                ],
            ),
        ] + popup_rows(app),
        wrap: true,
    }
}

pub fn draw_popup(app: &App) -> (r: Widget)
    ensures
        r@ == popup_view(*app),
{
    let title = match app.popup {
        Popup::Help => "Shortcuts (Space)",
        Popup::ChannelSwitcher => "Channel switcher (Space Space)",
        Popup::Search => "Search (/)",
        Popup::Inbox => "Inbox (Space n)",
        Popup::Emoji => "Emoji (:)",
        Popup::MessageActions => "Message actions (Space a)",
        _ => "",
    };
    let rows = match app.popup {
        Popup::Help => help_lines(),
        Popup::ChannelSwitcher => switcher_rows(app),
        Popup::Search => {
            let query = text::joined("Query: ", app.popup_input.as_str());
            one_line(Line::from_text(query.as_str()))
        },
        Popup::Inbox => inbox_rows(app),
        Popup::Emoji => emoji_rows(app),
        Popup::MessageActions => {
            let mut rows = one_line(
                Line::from_text(
                    "y copy · r react · R reply · e edit · d delete · o open URL · P pin",
                ),
            );
            push_line(
                &mut rows,
                Line::from_text(
                    "Voice: placeholder in v1 (no audio yet) · threads via #channels",
                ),
            );
            rows
        },
        _ => Vec::new(),
    };
    assert(style::line_views(rows@) =~= popup_rows(*app));
    let filter = text::joined("Filter: ", app.popup_input.as_str());
    let mut lines = one_line(Line::styled(filter, Style::new().fg(Color::DarkGray)));
    style::extend_lines(&mut lines, rows);
    Widget::Paragraph { block: Some(pane_block(title, true)), lines, wrap: true }
}

/// What a popup that asks holds.
pub open spec fn confirm_lines(app: App) -> Seq<style::LineView> {
    if app.popup == Popup::ConfirmLogout {
        seq![
            style::text_line(
                "Logged in as "@ + app.me.shown_name() + " ("@ + app.me.name@ + ")"@,
            ),
            style::text_line("Invalidate this session and quit?"@),
            style::text_line("y confirm · Esc cancel"@),
        ]
    } else {
        seq![
            style::text_line("Delete this message?"@),
            style::plain_line(
                seq![
                    style::styled(
                        match app.message() {
                            Some(m) => text::first_chars(m.content@, 60),
                            None => Seq::empty(),
                        },
                        Style::new().fg(Color::DarkGray),
                    ),
                ],
            ),
            style::text_line("y confirm · Esc cancel"@),
        ]
    }
}

pub open spec fn confirm_view(app: App) -> WidgetView {
    WidgetView::Paragraph {
        block: Some(
            BlockView {
                style: Style::new().fg(Color::Red),
                ..pane_border(
                    if app.popup == Popup::ConfirmLogout {
                        "Log out"@
                    } else {
                        "Confirm"@
                    },
                    true,
                )
            },
        ),
        lines: confirm_lines(app),
        wrap: false,
    }
}

pub fn draw_confirm(app: &App) -> (r: Widget)
    ensures
        r@ == confirm_view(*app),
{
    let logout: bool = app.popup == Popup::ConfirmLogout;
    let mut lines = if logout {
        let mut who = text::joined("Logged in as ", app.me.display());
        who.append(" (");
        who.append(app.me.name.as_str());
        who.append(")");
        let mut lines = one_line(Line::from_text(who.as_str()));
        push_line(&mut lines, Line::from_text("Invalidate this session and quit?"));
        lines
    } else {
        let start = match app.selected_message() {
            Some(m) => text::take_chars(m.content.as_str(), 60),
            None => String::new(),
        };
        let mut lines = one_line(Line::from_text("Delete this message?"));
        push_line(&mut lines, Line::styled(start, Style::new().fg(Color::DarkGray)));
        lines
    };
    push_line(&mut lines, Line::from_text("y confirm · Esc cancel"));
    assert(style::line_views(lines@) =~= confirm_lines(*app));
    let border = pane_block(
        if logout {
            "Log out"
        } else {
            "Confirm"
        },
        true,
    );
    Widget::Paragraph {
        block: Some(Block { style: Style::new().fg(Color::Red), ..border }),
        lines,
        wrap: false,
    }
}

// ---------------------------------------------------------------------------
// The whole screen
// ---------------------------------------------------------------------------

/// The panes that are shown, each in its place.
pub open spec fn panes_drawn(app: App, p: Places, times: Seq<Seq<char>>) -> Seq<PlacedView> {
    (if app.show_servers {
        seq![PlacedView { area: p.panes@[0], widget: servers_view(app) }]
    } else {
        Seq::empty()
    }) + (if app.show_channels {
        seq![PlacedView { area: p.panes@[message_pane(app) - 1], widget: channels_view(app) }]
    } else {
        Seq::empty()
    }) + seq![
        PlacedView { area: p.messages, widget: messages_view(app, times) },
        PlacedView { area: p.composer, widget: composer_view(app) },
    ] + (if app.show_members {
        seq![PlacedView { area: p.panes@[message_pane(app) + 1], widget: members_view(app) }]
    } else {
        Seq::empty()
    })
}

/// The popup, where there is one, over an empty place.
pub open spec fn popup_drawn(app: App, p: Places) -> Seq<PlacedView> {
    if app.popup == Popup::Closed {
        Seq::empty()
    } else {
        seq![
            PlacedView { area: p.popup, widget: WidgetView::Clear },
            PlacedView {
                area: p.popup,
                widget: if app.popup == Popup::ConfirmDelete || app.popup
                    == Popup::ConfirmLogout {
                    confirm_view(app)
                } else {
                    popup_view(app)
                },
            },
        ]
    }
}

/// Everything on the screen, in the order in which it is drawn.
pub open spec fn screen(app: App, p: Places, times: Seq<Seq<char>>) -> Seq<PlacedView> {
    seq![PlacedView { area: p.header, widget: header_view(app) }] + panes_drawn(app, p, times)
        + seq![PlacedView { area: p.status, widget: status_view(app) }] + popup_drawn(app, p)
}

fn draw_main(app: &App, p: &Places, times: &Vec<String>, out: &mut Vec<Placed>)
    requires
        p.fits(*app),
        times@.len() == app.messages@.len(),
    ensures
        placed_views(final(out)@) == placed_views(old(out)@) + panes_drawn(
            *app,
            *p,
            text::texts(times@),
        ),
{
    let mut i: usize = 0;
    if app.show_servers {
        place(out, p.panes[i], draw_servers(app));
        i += 1;
    }
    if app.show_channels {
        place(out, p.panes[i], draw_channels(app));
        i += 1;
    }
    place(out, p.messages, draw_messages(app, times));
    place(out, p.composer, draw_composer(app));
    i += 1;
    if app.show_members {
        place(out, p.panes[i], draw_members(app));
    }
    assert(placed_views(out@) =~= placed_views(old(out)@) + panes_drawn(
        *app,
        *p,
        text::texts(times@),
    ));
}

/// Describes the screen, for given places and times of day.
pub fn draw_in(app: &App, p: &Places, times: &Vec<String>) -> (r: Vec<Placed>)
    requires
        p.fits(*app),
        times@.len() == app.messages@.len(),
    ensures
        placed_views(r@) == screen(*app, *p, text::texts(times@)),
{
    let mut out: Vec<Placed> = Vec::new();
    place(&mut out, p.header, draw_header(app));
    assert(placed_views(out@) =~= seq![PlacedView { area: p.header, widget: header_view(*app) }]);
    draw_main(app, p, times, &mut out);
    place(&mut out, p.status, draw_status(app));
    if app.popup != Popup::Closed {
        place(&mut out, p.popup, Widget::Clear);
        if app.popup == Popup::ConfirmDelete || app.popup == Popup::ConfirmLogout {
            place(&mut out, p.popup, draw_confirm(app));
        } else {
            place(&mut out, p.popup, draw_popup(app));
        }
    }
    assert(placed_views(out@) =~= screen(*app, *p, text::texts(times@)));
    out
}

/// There is a time of day for every message.
pub open spec fn are_times(app: App, times: Seq<Seq<char>>) -> bool {
    &&& times.len() == app.messages@.len()
    &&& forall|i: int|
        0 <= i < times.len() ==> time::is_time_of_day(
            #[trigger] times[i],
            app.options.display.hour_format_24,
        )
}

/// Describes the screen.
pub fn draw(app: &App, area: Rect) -> (r: Vec<Placed>)
    ensures
        exists|p: Places, times: Seq<Seq<char>>|
            p.arranged(*app, area) && are_times(*app, times) && placed_views(r@) == #[trigger] screen(
                *app,
                p,
                times,
            ),
{
    let p = arrange(app, area);
    let times = message_times(app);
    let r = draw_in(app, &p, &times);
    assert(are_times(*app, text::texts(times@)));
    r
}

/// What is emphasised is bold.
pub fn styled_modifier() -> (r: Style)
    ensures
        r == Style::new().bold(),
{
    Style::new().bold()
}

/// Every message from the one that the pane is scrolled to on is shown, whole, with all the
/// later ones below it.
pub proof fn law_messages_are_shown(app: App, times: Seq<Seq<char>>, i: int) -> (above: Seq<
    style::LineView,
>)
    requires
        app.msg_scroll <= i < app.messages@.len(),
    ensures
        message_lines(app, times) == above + message_block(app, i, times[i]) + messages_from(
            app,
            times,
            i + 1,
        ),
{
    lemma_messages_from(app, times, app.msg_scroll as int, i)
}

proof fn lemma_messages_from(app: App, times: Seq<Seq<char>>, from: int, i: int) -> (above: Seq<
    style::LineView,
>)
    requires
        0 <= from <= i < app.messages@.len(),
    ensures
        messages_from(app, times, from) == above + message_block(app, i, times[i])
            + messages_from(app, times, i + 1),
    decreases i - from,
{
    if from == i {
        let none = Seq::<style::LineView>::empty();
        assert(messages_from(app, times, i) =~= none + message_block(app, i, times[i])
            + messages_from(app, times, i + 1));
        none
    } else {
        let rest = lemma_messages_from(app, times, from + 1, i);
        let above = message_block(app, from, times[from]) + rest;
        assert(messages_from(app, times, from) =~= above + message_block(app, i, times[i])
            + messages_from(app, times, i + 1));
        above
    }
}

} // verus!
