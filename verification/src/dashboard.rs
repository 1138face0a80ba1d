//! What the dashboard shows of the servers, channels, members and messages that there are.

use crate::app::{App, Focus, Popup};
use crate::markdown;
use crate::protocol::{ChannelKind, Message, Notification, Presence, ReactionCount, User};
use crate::shown::{bare, run, tinted};
use crate::style;
use crate::style::{Color, LineView, SpanView, Style};
use crate::text;
use crate::ui;
use crate::ui::{BlockView, PlacedView, Places, Rect, WidgetView};
use vstd::prelude::*;

verus! {

/// A line of spans, in no style of its own.
pub open spec fn line(spans: Seq<SpanView>) -> LineView {
    LineView { spans, style: bare() }
}

/// A line that is grey from edge to edge, or not.
pub open spec fn listed(spans: Seq<SpanView>, lit: bool) -> LineView {
    LineView {
        spans,
        style: if lit {
            Style { bg: Some(Color::DarkGray), ..bare() }
        } else {
            bare()
        },
    }
}

/// An arrow in front of what is selected, and as much room in front of everything else.
pub open spec fn arrow(selected: bool) -> SpanView {
    run(
        if selected {
            "▸ "@
        } else {
            "  "@
        },
        Style { fg: Some(Color::Cyan), bold: true, ..bare() },
    )
}

/// A round border with a title between spaces, bold and cyan while it has the keys.
pub open spec fn border(title: Seq<char>, focused: bool) -> BlockView {
    BlockView {
        title: seq![' '] + title + seq![' '],
        border_style: if focused {
            Style { fg: Some(Color::Cyan), bold: true, ..bare() }
        } else {
            Style { fg: Some(Color::DarkGray), ..bare() }
        },
        rounded: true,
        style: bare(),
    }
}

proof fn lemma_border(title: Seq<char>, focused: bool)
    ensures
        ui::pane_border(title, focused) == border(title, focused),
{
    reveal_strlit(" ");
    assert(" "@ =~= seq![' ']);
}

/// Everyone sees the display name of a user, and the account's name where there is none.
pub proof fn law_the_display_name_is_seen(user: User)
    ensures
        user.display_name matches Some(d) ==> user.shown_name() == d@,
        user.display_name is None ==> user.shown_name() == user.name@,
{
}

// ---------------------------------------------------------------------------
// Messages
// ---------------------------------------------------------------------------

/// The reactions' line of a message with reactions has one span for each of them behind the
/// indentation: the emoji and the count, in yellow exactly where it is the user's own, else
/// in cyan. A message without reactions has no such line.
pub proof fn law_every_reaction_is_shown(rs: Seq<ReactionCount>)
    ensures
        rs.len() == 0 ==> ui::reaction_lines(rs).len() == 0,
        rs.len() > 0 ==> {
            &&& ui::reaction_lines(rs).len() == 1
            &&& ui::reaction_lines(rs)[0].style == bare()
            &&& ui::reaction_lines(rs)[0].spans.len() == rs.len() + 1
            &&& ui::reaction_lines(rs)[0].spans[0] == run("    "@, bare())
            &&& forall|i: int|
                0 <= i < rs.len() ==> #[trigger] ui::reaction_lines(rs)[0].spans[i + 1] == tinted(
                    seq![' '] + rs[i].emoji@ + seq![' '] + text::decimal_text(rs[i].count as nat)
                        + seq![' '],
                    if rs[i].me {
                        Color::Yellow
                    } else {
                        Color::Cyan
                    },
                )
        },
{
    reveal_strlit(" ");
    assert(" "@ =~= seq![' ']);
}

/// A message is shown whole: a line with its author, the time and signs for what was edited,
/// pinned or answers another one; every line of its text, set in by four; its reactions;
/// every file that came with it, where images are shown; and an empty line.
pub proof fn law_a_message_is_shown_whole(app: App, i: int, time: Seq<char>)
    requires
        0 <= i < app.messages@.len(),
    ensures
        ({
            let m = app.messages@[i];
            let b = ui::message_block(app, i, time);
            let body = markdown::markdown_shown(m.content@);
            let reacted: int = if m.reactions@.len() > 0 {
                1
            } else {
                0
            };
            let files: int = if app.options.display.show_images {
                m.attachments@.len() as int
            } else {
                0
            };
            &&& b.len() == 1 + body.len() + reacted + files + 1
            &&& b[0] == line(
                seq![
                    arrow(i == app.msg_idx && app.focus == Focus::Messages),
                    run(m.author.shown_name(), Style { bold: true, ..bare() }),
                    tinted(
                        seq![' '] + time + (if m.edited_at is Some {
                            " (edited)"@
                        } else {
                            Seq::empty()
                        }) + (if m.pinned {
                            " 📌"@
                        } else {
                            Seq::empty()
                        }) + (if m.reply_to is Some {
                            " ↩"@
                        } else {
                            Seq::empty()
                        }),
                        Color::DarkGray,
                    ),
                ],
            )
            &&& forall|j: int|
                0 <= j < body.len() ==> #[trigger] b[1 + j] == line(
                    seq![run("    "@, bare())] + body[j].spans,
                )
            &&& reacted == 1 ==> b[1 + body.len() as int] == ui::reaction_lines(m.reactions@)[0]
            &&& forall|j: int|
                0 <= j < files ==> #[trigger] b[1 + body.len() + reacted + j] == line(
                    seq![
                        run("    "@, bare()),
                        run(
                            "🖼 "@ + m.attachments@[j].filename@ + " ("@ + m.attachments@[j].url@
                                + ")"@,
                            Style { fg: Some(Color::Cyan), underlined: true, ..bare() },
                        ),
                    ],
                )
            &&& b.last() == line(Seq::empty())
        }),
{
    reveal_strlit(" ");
    reveal_strlit("");
    assert(" "@ =~= seq![' ']);
    assert(""@ =~= Seq::<char>::empty());
    let m = app.messages@[i];
    let head = ui::message_header(m, i == app.msg_idx && app.focus == Focus::Messages, time);
    assert(head.spans =~= seq![
        arrow(i == app.msg_idx && app.focus == Focus::Messages),
        run(m.author.shown_name(), Style { bold: true, ..bare() }),
        tinted(
            seq![' '] + time + (if m.edited_at is Some {
                " (edited)"@
            } else {
                Seq::empty()
            }) + (if m.pinned {
                " 📌"@
            } else {
                Seq::empty()
            }) + (if m.reply_to is Some {
                " ↩"@
            } else {
                Seq::empty()
            }),
            Color::DarkGray,
        ),
    ]);
}

/// The messages' pane begins with the message that it is scrolled to, and shows every later
/// one below it, one behind the other. Where there is none it says so.
pub proof fn law_the_messages_follow_each_other(app: App, times: Seq<Seq<char>>, i: int)
    requires
        times.len() == app.messages@.len(),
    ensures
        ui::messages_view(app, times) == (WidgetView::Paragraph {
            block: Some(border("Messages"@, app.focus == Focus::Messages)),
            lines: ui::message_lines(app, times),
            wrap: true,
        }),
        app.msg_scroll < app.messages@.len() ==> ui::message_lines(app, times)
            == ui::messages_from(app, times, app.msg_scroll as int),
        0 <= i < app.messages@.len() ==> ui::messages_from(app, times, i) == ui::message_block(
            app,
            i,
            times[i],
        ) + ui::messages_from(app, times, i + 1),
        i == app.messages@.len() ==> ui::messages_from(app, times, i).len() == 0,
        app.msg_scroll >= app.messages@.len() ==> ui::message_lines(app, times) == seq![
            line(
                seq![
                    run(
                        "  No messages yet. Press i to compose."@,
                        Style { fg: Some(Color::DarkGray), italic: true, ..bare() },
                    ),
                ],
            ),
        ],
{
    lemma_border("Messages"@, app.focus == Focus::Messages);
}

// ---------------------------------------------------------------------------
// Lists
// ---------------------------------------------------------------------------

/// The servers' pane has one row for every server, in their order: an arrow at the selected
/// one, the name, and a sign where someone mentioned the user there, or else where there is
/// something new. The selected one is grey while the pane has the keys.
pub proof fn law_every_server_has_a_row(app: App, i: int)
    requires
        0 <= i < app.servers@.len(),
    ensures
        ui::servers_view(app) matches WidgetView::List { block, items } && block == border(
            "Servers"@,
            app.focus == Focus::Servers,
        ) && items.len() == app.servers@.len() && items[i] == ({
            let s = app.servers@[i];
            listed(
                seq![arrow(i == app.server_idx), run(s.name@, bare())] + (if s.mentioned {
                    seq![tinted(" [@]"@, Color::Rgb(255, 165, 0))]
                } else if s.unread {
                    seq![run(" •"@, Style { fg: Some(Color::Green), bold: true, ..bare() })]
                } else {
                    Seq::empty()
                }),
                i == app.server_idx && app.focus == Focus::Servers,
            )
        }),
{
    lemma_border("Servers"@, app.focus == Focus::Servers);
}

/// The channels' pane has one row for every channel, in their order: an arrow at the selected
/// one, a sign for its kind, the name, and a sign where someone mentioned the user there, or
/// else how much is unread.
pub proof fn law_every_channel_has_a_row(app: App, i: int)
    requires
        0 <= i < app.channels@.len(),
    ensures
        ui::channels_view(app) matches WidgetView::List { block, items } && block == border(
            "Channels"@,
            app.focus == Focus::Channels,
        ) && items.len() == app.channels@.len() && items[i] == ({
            let c = app.channels@[i];
            listed(
                seq![
                    arrow(i == app.channel_idx),
                    tinted(
                        (match c.kind {
                            ChannelKind::Thread => "🧵"@,
                            ChannelKind::ForumPost => "📝"@,
                            ChannelKind::VoicePlaceholder => "🔊"@,
                            ChannelKind::Direct => "✉"@,
                            ChannelKind::Announcement => "📢"@,
                            ChannelKind::Text => "#"@,
                        }) + seq![' '],
                        Color::DarkGray,
                    ),
                    run(c.name@, bare()),
                ] + (if c.mentioned {
                    seq![tinted(" [@]"@, Color::Rgb(255, 165, 0))]
                } else if c.unread_count > 0 {
                    seq![
                        tinted(
                            " ("@ + text::decimal_text(c.unread_count as nat) + ")"@,
                            Color::Green,
                        ),
                    ]
                } else {
                    Seq::empty()
                }),
                i == app.channel_idx && app.focus == Focus::Channels,
            )
        }),
{
    lemma_border("Channels"@, app.focus == Focus::Channels);
    reveal_strlit(" ");
    assert(" "@ =~= seq![' ']);
}

/// The members' pane has one row for every member, in their order: an arrow at the selected
/// one, a dot for whether they are there, and the name that others see.
pub proof fn law_every_member_has_a_row(app: App, i: int)
    requires
        0 <= i < app.members@.len(),
    ensures
        ui::members_view(app) matches WidgetView::List { block, items } && block == border(
            "Members"@,
            app.focus == Focus::Members,
        ) && items.len() == app.members@.len() && items[i] == ({
            let m = app.members@[i];
            listed(
                seq![
                    arrow(i == app.member_idx),
                    match m.presence {
                        Presence::Online => tinted("● "@, Color::Green),
                        Presence::Idle => tinted("● "@, Color::Yellow),
                        Presence::Dnd => tinted("● "@, Color::Red),
                        Presence::Offline => run("○ "@, Style { dim: true, ..bare() }),
                    },
                    run(m.user.shown_name(), bare()),
                ],
                i == app.member_idx && app.focus == Focus::Members,
            )
        }),
{
    lemma_border("Members"@, app.focus == Focus::Members);
}

// ---------------------------------------------------------------------------
// Header, bottom line, composer
// ---------------------------------------------------------------------------

/// The header names the selected server and the selected channel, and says its topic; a dash
/// stands for what is not selected.
pub proof fn law_the_header_says_where_one_is(app: App)
    ensures
        ui::header_view(app) == (WidgetView::Paragraph {
            block: None,
            lines: seq![
                line(
                    seq![
                        run(
                            " tuimessager · "@ + (if app.server_idx < app.servers@.len() {
                                app.servers@[app.server_idx as int].name@
                            } else {
                                "—"@
                            }) + " · #"@ + (if app.channel_idx < app.channels@.len() {
                                app.channels@[app.channel_idx as int].name@
                            } else {
                                "—"@
                            }) + "  "@ + (if app.channel_idx < app.channels@.len()
                                && app.channels@[app.channel_idx as int].topic is Some {
                                app.channels@[app.channel_idx as int].topic->0@
                            } else {
                                Seq::empty()
                            }),
                            Style { fg: Some(Color::Cyan), bold: true, ..bare() },
                        ),
                    ],
                ),
            ],
            wrap: false,
        }),
{
}

proof fn lemma_unread(ns: Seq<Notification>)
    ensures
        ui::unread_count(ns) == ns.filter(|n: Notification| !n.read).len(),
    decreases ns.len(),
{
    reveal(Seq::filter);
    if ns.len() > 0 {
        lemma_unread(ns.drop_last());
    }
}

/// The line at the bottom tells the news where there are any. Else it names the keys, and
/// how many notifications were not read where there are such.
pub proof fn law_the_bottom_line_tells_the_news(app: App)
    ensures
        ui::status_view(app) == (WidgetView::Paragraph {
            block: None,
            lines: seq![line(seq![tinted(ui::status_text(app), Color::DarkGray)])],
            wrap: false,
        }),
        app.status@.len() > 0 ==> ui::status_text(app) == seq![' '] + app.status@,
        app.status@.len() == 0 ==> ui::status_text(app)
            == " 1-4 focus · Tab cycle · / search · Space shortcuts · i compose · q quit"@ + ({
            let unread = app.notifications@.filter(|n: Notification| !n.read).len();
            if unread > 0 {
                " · inbox("@ + text::decimal_text(unread) + ")"@
            } else {
                Seq::empty()
            }
        }),
{
    reveal_strlit(" ");
    assert(" "@ =~= seq![' ']);
    lemma_unread(app.notifications@);
}

/// The composer's border says what Enter does with the text. The text has a cursor behind it
/// while it is being written, or while there is any.
pub proof fn law_the_composer_shows_its_text(app: App)
    ensures
        ui::composer_view(app) matches WidgetView::Paragraph { block, lines, wrap } && wrap
            && block == Some(
            border(
                if app.editing is Some {
                    "Edit (Enter save, Esc cancel)"@
                } else if app.reply_to is Some {
                    "Reply (Enter send, Esc cancel)"@
                } else if app.composer_open {
                    "Composer (Enter send, Esc cancel)"@
                } else {
                    "Composer (i to write)"@
                },
                app.composer_open,
            ),
        ) && lines == style::text_lines(
            if app.composer_open || app.composer@.len() > 0 {
                app.composer@ + "▊"@
            } else {
                Seq::empty()
            },
        ),
        app.composer_open ==> ui::composer_rows(app) == 5 + (if text::lines_of(
            app.composer@,
        ).len() as u16 > 2 {
            2
        } else {
            text::lines_of(app.composer@).len() as u16
        }),
        !app.composer_open ==> ui::composer_rows(app) == 3,
{
    lemma_border(ui::composer_title(app), app.composer_open);
}

/// A text of one line is a line of one span, and a longer one is as many lines as it has.
pub proof fn law_texts_are_shown_as_lines(s: Seq<char>)
    requires
        s.len() > 0,
    ensures
        !s.contains('\n') ==> style::text_line(s) == line(seq![run(s, bare())]),
        !s.contains('\n') ==> style::text_lines(s) == seq![line(seq![run(s, bare())])],
        style::text_lines(s).len() == text::lines_of(s).len(),
        forall|i: int|
            0 <= i < text::lines_of(s).len() ==> #[trigger] style::text_lines(s)[i]
                == style::text_line(text::lines_of(s)[i]),
        style::text_line(s).spans.len() == text::lines_of(s).len(),
        forall|i: int|
            0 <= i < text::lines_of(s).len() ==> #[trigger] style::text_line(s).spans[i] == run(
                text::lines_of(s)[i],
                bare(),
            ),
        style::text_lines(Seq::empty()) == seq![line(Seq::empty())],
{
    if !s.contains('\n') {
        text::law_lines(s, Seq::empty());
        assert(style::text_line(s).spans =~= seq![run(s, bare())]);
        assert(style::text_lines(s) =~= seq![style::text_line(s)]);
    }
}

// ---------------------------------------------------------------------------
// Popups
// ---------------------------------------------------------------------------

/// A popup has its title in its border and what was typed above its rows.
pub proof fn law_a_popup_shows_what_was_typed(app: App)
    ensures
        ui::popup_view(app) matches WidgetView::Paragraph { block, lines, wrap } && wrap && block
            == Some(border(ui::popup_title(app.popup), true)) && lines == seq![
            line(seq![tinted("Filter: "@ + app.popup_input@, Color::DarkGray)]),
        ] + ui::popup_rows(app),
        ui::popup_title(Popup::Help) == "Shortcuts (Space)"@,
        ui::popup_title(Popup::ChannelSwitcher) == "Channel switcher (Space Space)"@,
        ui::popup_title(Popup::Search) == "Search (/)"@,
        ui::popup_title(Popup::Inbox) == "Inbox (Space n)"@,
        ui::popup_title(Popup::Emoji) == "Emoji (:)"@,
        ui::popup_title(Popup::MessageActions) == "Message actions (Space a)"@,
        app.popup == Popup::Search ==> ui::popup_rows(app) == seq![
            style::text_line("Query: "@ + app.popup_input@),
        ],
        app.popup == Popup::MessageActions ==> ui::popup_rows(app) == seq![
            style::text_line(
                "y copy · r react · R reply · e edit · d delete · o open URL · P pin"@,
            ),
            style::text_line("Voice: placeholder in v1 (no audio yet) · threads via #channels"@),
        ],
        app.popup == Popup::Help ==> ui::popup_rows(app) == seq![
            style::text_line("1/2/3/4 focus · Tab/S-Tab cycle · j/k move · gg/G top/bottom"@),
            style::text_line("Ctrl-d/u half-page · i compose · Enter send · Esc close"@),
            style::text_line("/ search · y copy · r react · R reply · e edit · d delete"@),
            style::text_line("o open URL · Space Space switcher · Space a actions"@),
            style::text_line("Space n inbox · Space o options · Space p profile · Space r redraw"@),
            style::text_line("Space l log out · Space v voice placeholder"@),
            style::text_line(
                "Voice channels are UI placeholders in v1 (self-hosted audio roadmap)"@,
            ),
        ],
{
    lemma_border(ui::popup_title(app.popup), true);
    if app.popup == Popup::Help {
        let all = ui::help_text();
        assert(ui::popup_rows(app) =~= seq![
            style::text_line(all[0]),
            style::text_line(all[1]),
            style::text_line(all[2]),
            style::text_line(all[3]),
            style::text_line(all[4]),
            style::text_line(all[5]),
            style::text_line(all[6]),
        ]);
    }
}

/// The inbox has a row for each of the first twenty notifications, in their order: an arrow
/// at the chosen one, who wrote the message, and up to eighty characters of what it says.
pub proof fn law_the_inbox_lists_notifications(app: App, i: int)
    requires
        app.popup == Popup::Inbox,
        0 <= i < app.notifications@.len(),
        i < 20,
    ensures
        ui::popup_rows(app).len() == (if app.notifications@.len() < 20 {
            app.notifications@.len()
        } else {
            20
        }),
        ui::popup_rows(app)[i] == ({
            let m = app.notifications@[i].message;
            line(
                seq![
                    arrow(i == app.popup_idx),
                    run(m.author.shown_name() + ": "@, Style { bold: true, ..bare() }),
                    run(
                        if m.content@.len() <= 80 {
                            m.content@
                        } else {
                            m.content@.take(80)
                        },
                        bare(),
                    ),
                ],
            )
        }),
{
}

/// The channel switcher has a row for each channel that it offers, in its order: an arrow at
/// the chosen one, and the channel's name and topic.
pub proof fn law_the_switcher_lists_channels(app: App, v: int)
    requires
        app.popup == Popup::ChannelSwitcher,
        0 <= v < app.switcher().len(),
    ensures
        ui::popup_rows(app).len() == app.switcher().len(),
        ui::popup_rows(app)[v] == ({
            let c = app.channels@[app.switcher()[v].1 as int];
            line(
                seq![
                    arrow(v == app.popup_idx),
                    run(
                        "#"@ + c.name@ + "  "@ + (if c.topic is Some {
                            c.topic->0@
                        } else {
                            Seq::empty()
                        }),
                        bare(),
                    ),
                ],
            )
        }),
{
}

/// The emojis of the picker, in its order.
pub open spec fn emojis() -> Seq<Seq<char>> {
    seq!["🔥"@, "👍"@, "❤️"@, "😂"@, "🎉"@, "😮"@, "😢"@, "🙏"@, "👀"@, "💯"@]
}

/// An emoji is offered for what was typed.
pub open spec fn is_offered(emoji: Seq<char>, input: Seq<char>) -> bool {
    text::is_blank(input) || text::contains_text(emoji, text::trimmed(input))
}

proof fn lemma_emoji_rows(input: Seq<char>, chosen: usize, i: int, v: int)
    requires
        0 <= i <= 10,
        0 <= v,
    ensures
        ({
            let offered = emojis().skip(i).filter(|e: Seq<char>| is_offered(e, input));
            let rows = ui::emoji_rows_from(input, chosen, i, v);
            &&& rows.len() == offered.len()
            &&& forall|k: int|
                0 <= k < rows.len() ==> #[trigger] rows[k] == line(
                    seq![arrow(v + k == chosen), run(offered[k], bare())],
                )
        }),
    decreases 10 - i,
{
    let pred = |e: Seq<char>| is_offered(e, input);
    reveal(Seq::filter);
    text::law_blank_texts_trim_to_nothing(input);
    if i < 10 {
        let e = emojis()[i];
        let one = seq![e];
        assert(emojis().skip(i) =~= one + emojis().skip(i + 1));
        Seq::filter_distributes_over_add(one, emojis().skip(i + 1), pred);
        assert(one.drop_last() =~= Seq::<Seq<char>>::empty());
        assert(one.drop_last().filter(pred) =~= Seq::<Seq<char>>::empty());
        let rows = ui::emoji_rows_from(input, chosen, i, v);
        if is_offered(e, input) {
            assert(one.filter(pred) =~= one);
            lemma_emoji_rows(input, chosen, i + 1, v + 1);
            let rest = ui::emoji_rows_from(input, chosen, i + 1, v + 1);
            let offered = emojis().skip(i).filter(pred);
            assert forall|k: int| 0 <= k < rows.len() implies #[trigger] rows[k] == line(
                seq![arrow(v + k == chosen), run(offered[k], bare())],
            ) by {
                if k > 0 {
                    assert(rows[k] == rest[k - 1]);
                }
            }
        } else {
            assert(one.filter(pred) =~= Seq::<Seq<char>>::empty());
            lemma_emoji_rows(input, chosen, i + 1, v);
            assert(emojis().skip(i).filter(pred) =~= emojis().skip(i + 1).filter(pred));
        }
    } else {
        assert(emojis().skip(10) =~= Seq::<Seq<char>>::empty());
    }
}

/// The emoji picker has a row for each emoji in which what was typed occurs, or for all of
/// them while nothing was typed, in their order, with an arrow at the chosen one.
pub proof fn law_the_picker_lists_emojis(app: App)
    requires
        app.popup == Popup::Emoji,
    ensures
        ({
            let offered = emojis().filter(|e: Seq<char>| is_offered(e, app.popup_input@));
            let rows = ui::popup_rows(app);
            &&& rows.len() == offered.len()
            &&& forall|k: int|
                0 <= k < rows.len() ==> #[trigger] rows[k] == line(
                    seq![arrow(k == app.popup_idx), run(offered[k], bare())],
                )
        }),
{
    assert(emojis().skip(0) =~= emojis());
    lemma_emoji_rows(app.popup_input@, app.popup_idx, 0, 0);
    assert forall|k: int| 0 <= k < ui::popup_rows(app).len() implies #[trigger] ui::popup_rows(
        app,
    )[k] == line(
        seq![
            arrow(k == app.popup_idx),
            run(emojis().filter(|e: Seq<char>| is_offered(e, app.popup_input@))[k], bare()),
        ],
    ) by {
        assert(ui::emoji_rows_from(app.popup_input@, app.popup_idx, 0, 0)[k] == line(
            seq![
                arrow(0 + k == app.popup_idx),
                run(emojis().filter(|e: Seq<char>| is_offered(e, app.popup_input@))[k], bare()),
            ],
        ));
    }
}

/// Before a message is deleted its first sixty characters are shown, and before the session
/// ends who is logged in. Both are red, and say which keys there are.
pub proof fn law_confirmations_say_what_happens(app: App)
    ensures
        ui::confirm_view(app) matches WidgetView::Paragraph { block, lines, wrap } && !wrap
            && block == Some(
            BlockView {
                style: Style { fg: Some(Color::Red), ..bare() },
                ..border(
                    if app.popup == Popup::ConfirmLogout {
                        "Log out"@
                    } else {
                        "Confirm"@
                    },
                    true,
                )
            },
        ) && lines == (if app.popup == Popup::ConfirmLogout {
            seq![
                style::text_line(
                    "Logged in as "@ + app.me.shown_name() + " ("@ + app.me.name@ + ")"@,
                ),
                style::text_line("Invalidate this session and quit?"@),
                style::text_line("y confirm · Esc cancel"@),
            ]
        } else {
            seq![
                style::text_line("Delete this message?"@),
                line(
                    seq![
                        tinted(
                            if app.msg_idx < app.messages@.len() {
                                let s = app.messages@[app.msg_idx as int].content@;
                                if s.len() <= 60 {
                                    s
                                } else {
                                    s.take(60)
                                }
                            } else {
                                Seq::empty()
                            },
                            Color::DarkGray,
                        ),
                    ],
                ),
                style::text_line("y confirm · Esc cancel"@),
            ]
        }),
{
    lemma_border("Log out"@, true);
    lemma_border("Confirm"@, true);
}

/// What is on the screen: the header, the panes that are shown from left to right with the
/// composer behind the messages, the line at the bottom, and over all that the popup, where
/// one is open, on a cleared place.
pub proof fn law_the_screen_shows_everything(app: App, p: Places, times: Seq<Seq<char>>)
    ensures
        ({
            let s = ui::screen(app, p, times);
            let servers: int = if app.show_servers {
                1
            } else {
                0
            };
            let channels: int = if app.show_channels {
                1
            } else {
                0
            };
            let members: int = if app.show_members {
                1
            } else {
                0
            };
            let popup: int = if app.popup == Popup::Closed {
                0
            } else {
                2
            };
            let n = servers + channels;
            &&& s.len() == 4 + n + members + popup
            &&& s[0] == (PlacedView { area: p.header, widget: ui::header_view(app) })
            &&& app.show_servers ==> s[1] == (PlacedView {
                area: p.panes@[0],
                widget: ui::servers_view(app),
            })
            &&& app.show_channels ==> s[1 + servers] == (PlacedView {
                area: p.panes@[servers],
                widget: ui::channels_view(app),
            })
            &&& s[1 + n] == (PlacedView {
                area: p.messages,
                widget: ui::messages_view(app, times),
            })
            &&& s[2 + n] == (PlacedView { area: p.composer, widget: ui::composer_view(app) })
            &&& app.show_members ==> s[3 + n] == (PlacedView {
                area: p.panes@[n + 1],
                widget: ui::members_view(app),
            })
            &&& s[3 + n + members] == (PlacedView {
                area: p.status,
                widget: ui::status_view(app),
            })
            &&& popup == 2 ==> s[4 + n + members] == (PlacedView {
                area: p.popup,
                widget: WidgetView::Clear,
            }) && s[5 + n + members] == (PlacedView {
                area: p.popup,
                widget: if app.popup == Popup::ConfirmDelete || app.popup == Popup::ConfirmLogout {
                    ui::confirm_view(app)
                } else {
                    ui::popup_view(app)
                },
            })
        }),
{
}

// ---------------------------------------------------------------------------
// Places
// ---------------------------------------------------------------------------

/// On a screen that is large enough for all of it, the servers have 20 columns, the channels
/// 24 and the members 22 where they are shown, and the messages and the composer below them
/// have the rest of the columns between them.
pub proof fn law_panes_have_their_widths(app: App, area: Rect, p: Places)
    requires
        p.arranged(app, area),
        area.x + area.width <= u16::MAX,
        area.y + area.height <= u16::MAX,
        86 <= area.width,
        14 <= area.height,
    ensures
        ({
            let servers: int = if app.show_servers {
                20
            } else {
                0
            };
            let channels: int = if app.show_channels {
                24
            } else {
                0
            };
            let members: int = if app.show_members {
                22
            } else {
                0
            };
            let writing: int = if app.composer_open {
                5 + (if text::lines_of(app.composer@).len() as u16 > 2 {
                    2
                } else {
                    text::lines_of(app.composer@).len() as u16
                })
            } else {
                3
            };
            &&& p.header == (Rect { height: 1, ..area })
            &&& p.status == (Rect { y: (area.y + area.height - 1) as u16, height: 1, ..area })
            &&& p.messages == (Rect {
                x: (area.x + servers + channels) as u16,
                y: (area.y + 1) as u16,
                width: (area.width - servers - channels - members) as u16,
                height: (area.height - 2 - writing) as u16,
            })
            &&& p.composer == (Rect {
                x: (area.x + servers + channels) as u16,
                y: (area.y + area.height - 1 - writing) as u16,
                width: (area.width - servers - channels - members) as u16,
                height: writing as u16,
            })
            &&& app.show_servers ==> p.panes@[0] == (Rect {
                x: area.x,
                y: (area.y + 1) as u16,
                width: 20,
                height: (area.height - 2) as u16,
            })
            &&& app.show_channels ==> p.panes@[if app.show_servers {
                1
            } else {
                0
            }] == (Rect {
                x: (area.x + servers) as u16,
                y: (area.y + 1) as u16,
                width: 24,
                height: (area.height - 2) as u16,
            })
            &&& app.show_members ==> p.panes@.last() == (Rect {
                x: (area.x + area.width - 22) as u16,
                y: (area.y + 1) as u16,
                width: 22,
                height: (area.height - 2) as u16,
            })
        }),
{
    law_the_composer_shows_its_text(app);
    ui::law_the_screen_is_filled(app, area, p);
}

/// A popup that asks has half of the screen's width and a fifth of its height, and any other
/// one seven tenths of its width and six of its height, in the middle.
pub proof fn law_popups_are_in_the_middle(app: App, area: Rect, p: Places)
    requires
        p.arranged(app, area),
        area.x + area.width <= u16::MAX,
        area.y + area.height <= u16::MAX,
    ensures
        app.popup == Popup::ConfirmDelete || app.popup == Popup::ConfirmLogout ==> {
            &&& p.popup.x == area.x + (area.width * 25 + 50) / 100
            &&& p.popup.x + p.popup.width == area.x + (area.width * 75 + 50) / 100
            &&& p.popup.y == area.y + (area.height * 40 + 50) / 100
            &&& p.popup.y + p.popup.height == area.y + (area.height * 60 + 50) / 100
        },
        app.popup != Popup::ConfirmDelete && app.popup != Popup::ConfirmLogout ==> {
            &&& p.popup.x == area.x + (area.width * 15 + 50) / 100
            &&& p.popup.x + p.popup.width == area.x + (area.width * 85 + 50) / 100
            &&& p.popup.y == area.y + (area.height * 20 + 50) / 100
            &&& p.popup.y + p.popup.height == area.y + (area.height * 80 + 50) / 100
        },
{
    if app.popup == Popup::ConfirmDelete || app.popup == Popup::ConfirmLogout {
        ui::law_the_middle_is_centered(area, 50, 20, p.popup);
    } else {
        ui::law_the_middle_is_centered(area, 70, 60, p.popup);
    }
}

/// A client that was just started shows all panes, empty, with the keys on the servers, no
/// popup and an empty composer.
pub proof fn law_a_new_client_is_empty(
    app: App,
    options: crate::config::AppOptions,
    client: crate::client::Client,
    me: User,
    theme: crate::config::Theme,
    p: Places,
    times: Seq<Seq<char>>,
)
    requires
        app.is_new(options, client, me, theme),
        times.len() == 0,
    ensures
        ui::screen(app, p, times).len() == 7,
        ui::servers_view(app) matches WidgetView::List { block, items } && items.len() == 0
            && block == border("Servers"@, true),
        ui::channels_view(app) matches WidgetView::List { block, items } && items.len() == 0
            && block == border("Channels"@, false),
        ui::members_view(app) matches WidgetView::List { block, items } && items.len() == 0
            && block == border("Members"@, false),
        ui::message_lines(app, times).len() == 1,
        ui::composer_view(app) matches WidgetView::Paragraph { block, lines, .. } && block == Some(
            border("Composer (i to write)"@, false),
        ) && lines == seq![line(Seq::empty())],
        app.client == client && app.me == me && app.options == options && app.theme == theme,
        app.editing is None && app.reply_to is None && app.exit_message is None,
{
    lemma_border("Servers"@, true);
    lemma_border("Channels"@, false);
    lemma_border("Members"@, false);
    lemma_border("Composer (i to write)"@, false);
}

} // verus!
