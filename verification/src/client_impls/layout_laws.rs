//! Where everything stands on a screen that is large enough for it.

use crate::client_impls::geometry::Rect;
use crate::client_impls::layout;
use crate::client_impls::layout::{
    Constraint, FailedLayout, Flex, LoadingLayout, LogRow, MenuLayout, PlayerRow, RunningLayout,
    SplitView,
};
use vstd::prelude::*;

verus! {

/// How many cells a part is wide, as far as numbers of sixteen bits reach.
pub open spec fn width_of(area: Rect) -> int {
    area.right() - area.x
}

/// How many cells a part is high, as far as numbers of sixteen bits reach.
pub open spec fn height_of(area: Rect) -> int {
    area.bottom() - area.y
}

/// Whether a piece takes these rows of a part, counted from its top, in its full
/// width.
pub open spec fn is_row(area: Rect, piece: Rect, from: int, height: int) -> bool {
    piece.x == area.x && piece.width == area.width && piece.y == area.y + from && piece.height
        == height
}

/// Whether a piece takes these columns of a part, counted from its left, in its
/// full height.
pub open spec fn is_column(area: Rect, piece: Rect, from: int, width: int) -> bool {
    piece.y == area.y && piece.height == area.height && piece.x == area.x + from && piece.width
        == width
}

/// The sums over a list, one at a time.
proof fn lemma_sums(front: Seq<Constraint>, c: Constraint, size: int)
    ensures
        layout::wanted_sum(front.push(c), size) == layout::wanted_sum(front, size)
            + layout::wanted(c, size),
        layout::fills(front.push(c)) == layout::fills(front) + if c is Fill {
            1nat
        } else {
            0
        },
        layout::wanted_sum(Seq::<Constraint>::empty(), size) == 0,
        layout::fills(Seq::<Constraint>::empty()) == 0,
{
    assert(front.push(c).drop_last() =~= front);
}

proof fn lemma_sums1(c: Seq<Constraint>, size: int)
    requires
        c.len() == 1,
    ensures
        layout::wanted_sum(c, size) == layout::wanted(c[0], size),
        layout::fills(c) == if c[0] is Fill {
            1nat
        } else {
            0
        },
{
    lemma_sums(Seq::<Constraint>::empty(), c[0], size);
    assert(c =~= Seq::<Constraint>::empty().push(c[0]));
}

proof fn lemma_sums2(c: Seq<Constraint>, size: int)
    requires
        c.len() == 2,
    ensures
        layout::wanted_sum(c, size) == layout::wanted(c[0], size) + layout::wanted(c[1], size),
        layout::fills(c) == (if c[0] is Fill {
            1nat
        } else {
            0
        }) + (if c[1] is Fill {
            1nat
        } else {
            0
        }),
{
    lemma_sums1(c.take(1), size);
    lemma_sums(c.take(1), c[1], size);
    assert(c =~= c.take(1).push(c[1]));
}

proof fn lemma_sums4(c: Seq<Constraint>, size: int)
    requires
        c.len() == 4,
    ensures
        layout::wanted_sum(c, size) == layout::wanted(c[0], size) + layout::wanted(c[1], size)
            + layout::wanted(c[2], size) + layout::wanted(c[3], size),
        layout::fills(c) == (if c[0] is Fill {
            1nat
        } else {
            0
        }) + (if c[1] is Fill {
            1nat
        } else {
            0
        }) + (if c[2] is Fill {
            1nat
        } else {
            0
        }) + (if c[3] is Fill {
            1nat
        } else {
            0
        }),
{
    lemma_sums2(c.take(2), size);
    lemma_sums(c.take(2), c[2], size);
    lemma_sums(c.take(3), c[3], size);
    assert(c.take(3) =~= c.take(2).push(c[2]));
    assert(c =~= c.take(3).push(c[3]));
}

/// What is left without gaps between the pieces.
proof fn lemma_no_gaps(split: SplitView)
    requires
        split.spacing == 0,
    ensures
        split.spare() == 200 * split.size() - layout::wanted_sum(split.constraints, split.size()),
{
    assert(200 * split.spacing * (split.constraints.len() - 1) == 0) by (nonlinear_arith)
        requires
            split.spacing == 0,
    ;
}

/// What is left with gaps of this many cells between the pieces.
proof fn lemma_gaps(split: SplitView, spacing: int, n: int)
    requires
        split.spacing == spacing,
        split.constraints.len() == n,
    ensures
        split.spare() == 200 * split.size() - layout::wanted_sum(split.constraints, split.size())
            - 200 * spacing * (n - 1),
{
}

/// What a single piece shares evenly is all of it.
proof fn lemma_one_share(n: int)
    ensures
        n / 1 == n,
        n % 1 == 0,
{
    assert(n / 1 == n && n % 1 == 0) by (nonlinear_arith);
}

/// The parts of the menu stand one below the other: the address of the server, the
/// requested domain, the button for more settings, these settings, and at the
/// bottom the button that starts. What stands in the way of starting is shown in
/// between.
pub proof fn law_menu_parts_are_stacked(area: Rect, pieces: Seq<Rect>)
    requires
        layout::divided(layout::menu_fields(area), pieces),
        height_of(area) >= 19,
    ensures
        pieces.len() == 6,
        is_row(area, pieces[0], 0, 3),
        is_row(area, pieces[1], 3, 3),
        is_row(area, pieces[2], 6, 1),
        is_row(area, pieces[3], 7, 9),
        is_row(area, pieces[4], 16, height_of(area) - 19),
        is_row(area, pieces[5], height_of(area) - 3, 3),
{
    let split = layout::menu_fields(area);
    let c = split.constraints;
    let size = split.size();
    lemma_sums4(c.take(4), size);
    lemma_sums(c.take(4), c[4], size);
    lemma_sums(c.take(5), c[5], size);
    assert(c.take(5) =~= c.take(4).push(c[4]));
    assert(c =~= c.take(5).push(c[5]));
    lemma_no_gaps(split);
    assert(split.spare() == 200 * (size - 19));
    lemma_one_share(split.spare());
    reveal_with_fuel(SplitView::begin, 7);
    assert(split.is_settled());
    assert forall|i: int| 0 <= i < 6 implies layout::is_piece(
        area,
        split.direction,
        #[trigger] pieces[i],
    ) by {}
}

/// The settings of the proxy stand one below the other.
pub proof fn law_proxy_settings_are_stacked(area: Rect, pieces: Seq<Rect>)
    requires
        layout::divided(layout::proxy_fields(area), pieces),
        height_of(area) >= 9,
    ensures
        pieces.len() == 3,
        is_row(area, pieces[0], 0, 3),
        is_row(area, pieces[1], 3, 3),
        is_row(area, pieces[2], 6, 3),
{
    let split = layout::proxy_fields(area);
    let c = split.constraints;
    let size = split.size();
    lemma_sums2(c.take(2), size);
    lemma_sums(c.take(2), c[2], size);
    assert(c =~= c.take(2).push(c[2]));
    lemma_no_gaps(split);
    reveal_with_fuel(SplitView::begin, 4);
    assert(split.is_settled());
    assert(layout::is_piece(area, split.direction, pieces[0]));
}

proof fn lemma_servers(n: nat, size: int)
    ensures
        ({
            let c = Seq::new(n, |i: int| Constraint::Length(4));
            layout::wanted_sum(c, size) == 800 * n && layout::fills(c) == 0
        }),
    decreases n,
{
    let c = Seq::new(n, |i: int| Constraint::Length(4));
    if n > 0 {
        lemma_servers((n - 1) as nat, size);
        assert(c.drop_last() =~= Seq::new((n - 1) as nat, |i: int| Constraint::Length(4)));
    }
}

proof fn lemma_server_begin(split: SplitView, n: nat, i: int)
    requires
        split.constraints == Seq::new(n, |i: int| Constraint::Length(4)).push(
            Constraint::Length(3),
        ),
        split.spacing == 0,
        split.flex == Flex::Start,
        0 <= i <= n,
    ensures
        split.begin(i) == 200 * split.start() + 800 * i,
    decreases i,
{
    if i > 0 {
        lemma_server_begin(split, n, i - 1);
        assert(split.extent(i - 1) == 800);
        assert(200 * split.spacing == 0);
    }
}

/// The servers that were found stand one below the other, and what is said of the
/// search below them.
pub proof fn law_servers_are_stacked(area: Rect, servers: nat, pieces: Seq<Rect>, i: int)
    requires
        layout::divided(layout::server_rows(area, servers), pieces),
        height_of(area) >= 4 * servers + 3,
        0 <= i < servers,
    ensures
        pieces.len() == servers + 1,
        is_row(area, pieces[i], 4 * i, 4),
{
    lemma_servers_settled(area, servers);
    let split = layout::server_rows(area, servers);
    lemma_server_begin(split, servers, i);
    assert(layout::is_piece(area, split.direction, pieces[i]));
}

/// What is said of the search for servers stands below those that were found.
pub proof fn law_the_search_stands_below(area: Rect, servers: nat, pieces: Seq<Rect>)
    requires
        layout::divided(layout::server_rows(area, servers), pieces),
        height_of(area) >= 4 * servers + 3,
    ensures
        pieces.len() == servers + 1,
        is_row(area, pieces[servers as int], 4 * servers as int, 3),
{
    lemma_servers_settled(area, servers);
    let split = layout::server_rows(area, servers);
    lemma_server_begin(split, servers, servers as int);
    assert(layout::is_piece(area, split.direction, pieces[servers as int]));
}

proof fn lemma_servers_settled(area: Rect, servers: nat)
    requires
        height_of(area) >= 4 * servers + 3,
    ensures
        layout::server_rows(area, servers).is_settled(),
{
    let split = layout::server_rows(area, servers);
    let front = Seq::new(servers, |i: int| Constraint::Length(4));
    let size = split.size();
    lemma_servers(servers, size);
    lemma_sums(front, Constraint::Length(3), size);
    lemma_no_gaps(split);
    assert(split.spare() >= 0);
    assert forall|i: int| 0 <= i < split.constraints.len() implies layout::is_clear(
        #[trigger] split.begin(i),
    ) && layout::is_clear(split.begin(i) + split.extent(i)) by {
        lemma_server_begin(split, servers, i);
        assert(split.extent(i) == if i < servers {
            800int
        } else {
            600
        });
    }
}

/// A line in the middle has as many rows above it as below, or one more.
pub proof fn law_lines_stand_in_the_middle(area: Rect, line: Rect)
    requires
        layout::divided(layout::middle_line(area), seq![line]),
        height_of(area) >= 1,
    ensures
        is_row(area, line, height_of(area) / 2, 1),
{
    let split = layout::middle_line(area);
    lemma_sums1(split.constraints, split.size());
    lemma_no_gaps(split);
    assert(split.is_settled());
    assert(seq![line][0] == line);
}

/// The column in the middle of the screen takes a quarter of its width while the
/// proxy is connected to, up to rounding.
pub proof fn law_a_quarter_stands_in_the_middle(area: Rect, middle: Rect)
    requires
        layout::divided(layout::middle_column(area, 25), seq![middle]),
    ensures
        ({
            let w = width_of(area);
            let a = (3 * w + 4) / 8;
            let b = (5 * w + 4) / 8;
            is_column(area, middle, a, b - a)
        }),
{
    let w = width_of(area);
    let split = layout::middle_column(area, 25);
    lemma_sums1(split.constraints, w);
    lemma_no_gaps(split);
    assert(layout::wanted(Constraint::Percentage(25), w) == 50 * w);
    assert(split.spare() == 150 * w);
    assert(split.begin(0) == 200 * area.x + 75 * w);
    assert(split.extent(0) == 50 * w);
    assert(split.is_settled());
    assert(seq![middle][0] == middle);
    assert((75 * w + 100) / 200 == (3 * w + 4) / 8);
    assert((125 * w + 100) / 200 == (5 * w + 4) / 8);
}

/// The column in the middle of the screen takes two fifths of its width after a
/// failure, up to rounding.
pub proof fn law_two_fifths_stand_in_the_middle(area: Rect, middle: Rect)
    requires
        layout::divided(layout::middle_column(area, 40), seq![middle]),
    ensures
        ({
            let w = width_of(area);
            let a = (3 * w + 5) / 10;
            let b = (7 * w + 5) / 10;
            is_column(area, middle, a, b - a)
        }),
{
    let w = width_of(area);
    let split = layout::middle_column(area, 40);
    lemma_sums1(split.constraints, w);
    lemma_no_gaps(split);
    assert(layout::wanted(Constraint::Percentage(40), w) == 80 * w);
    assert(split.spare() == 120 * w);
    assert(split.begin(0) == 200 * area.x + 60 * w);
    assert(split.extent(0) == 80 * w);
    assert(split.is_settled());
    assert(seq![middle][0] == middle);
    assert((60 * w + 100) / 200 == (3 * w + 5) / 10);
    assert((140 * w + 100) / 200 == (7 * w + 5) / 10);
}

/// What is waited for stands in the middle, and below it, after a free row, the
/// button.
pub proof fn law_waiting_stands_in_the_middle(area: Rect, loading: Rect, button: Rect)
    requires
        layout::divided(layout::loading_rows(area), seq![loading, button]),
        height_of(area) >= 5,
    ensures
        is_row(area, loading, (height_of(area) - 4) / 2, 3),
        is_row(area, button, (height_of(area) - 4) / 2 + 4, 1),
{
    let split = layout::loading_rows(area);
    lemma_sums2(split.constraints, split.size());
    lemma_gaps(split, 1, 2);
    reveal_with_fuel(SplitView::begin, 3);
    assert(split.spare() == 200 * split.size() - 1000);
    assert(split.is_settled());
    assert(seq![loading, button][0] == loading);
    assert(seq![loading, button][1] == button);
}

/// What went wrong stands in the middle, and below it when it is tried again, and
/// after a free row the buttons.
pub proof fn law_failures_stand_in_the_middle(area: Rect, pieces: Seq<Rect>)
    requires
        layout::divided(layout::failed_rows(area), pieces),
        height_of(area) >= 12,
    ensures
        ({
            let top = (height_of(area) - 11) / 2;
            &&& pieces.len() == 4
            &&& is_row(area, pieces[0], top, 7)
            &&& is_row(area, pieces[1], top + 7, 3)
            &&& is_row(area, pieces[3], top + 11, 1)
        }),
{
    let split = layout::failed_rows(area);
    lemma_sums4(split.constraints, split.size());
    lemma_no_gaps(split);
    reveal_with_fuel(SplitView::begin, 5);
    assert(split.spare() == 200 * split.size() - 2400);
    assert(split.is_settled());
    assert(layout::is_piece(area, split.direction, pieces[0]));
    assert(layout::is_piece(area, split.direction, pieces[1]));
    assert(layout::is_piece(area, split.direction, pieces[3]));
}

/// Two buttons stand in the middle, with a free column between them.
pub proof fn law_two_buttons_stand_in_the_middle(
    area: Rect,
    one: u16,
    two: u16,
    first: Rect,
    second: Rect,
)
    requires
        layout::divided(layout::two_buttons(area, one, two), seq![first, second]),
        width_of(area) >= one + two + 1,
    ensures
        ({
            let left = (width_of(area) - one - two) / 2;
            is_column(area, first, left, one as int) && is_column(
                area,
                second,
                left + one + 1,
                two as int,
            )
        }),
{
    let split = layout::two_buttons(area, one, two);
    lemma_sums2(split.constraints, split.size());
    lemma_gaps(split, 1, 2);
    reveal_with_fuel(SplitView::begin, 3);
    assert(split.spare() == 200 * split.size() - 200 * one - 200 * two - 200);
    assert(split.is_settled());
    assert(seq![first, second][0] == first);
    assert(seq![first, second][1] == second);
}

/// What is known of a shared server, and the log, share the screen. Where its
/// width is odd, the left is wider by one column.
pub proof fn law_halves_share_the_screen(area: Rect, left: Rect, right: Rect)
    requires
        layout::divided(layout::halves(area), seq![left, right]),
    ensures
        ({
            let half = (width_of(area) + 1) / 2;
            is_column(area, left, 0, half) && is_column(area, right, half, width_of(area) - half)
        }),
{
    let split = layout::halves(area);
    lemma_sums2(split.constraints, split.size());
    lemma_no_gaps(split);
    reveal_with_fuel(SplitView::begin, 3);
    assert(split.spare() == 200 * split.size());
    assert(split.extent(0) == 100 * split.size());
    assert(split.is_settled());
    assert(seq![left, right][0] == left);
    assert(seq![left, right][1] == right);
}

/// The address of the server stands above the players.
pub proof fn law_the_address_stands_above(area: Rect, ip: Rect, players: Rect)
    requires
        layout::divided(layout::running_rows(area), seq![ip, players]),
        height_of(area) >= 3,
    ensures
        is_row(area, ip, 0, 3),
        is_row(area, players, 3, height_of(area) - 3),
{
    let split = layout::running_rows(area);
    lemma_sums2(split.constraints, split.size());
    lemma_no_gaps(split);
    reveal_with_fuel(SplitView::begin, 3);
    assert(split.spare() == 200 * (split.size() - 3));
    lemma_one_share(split.spare());
    assert(split.is_settled());
    assert(seq![ip, players][0] == ip);
    assert(seq![ip, players][1] == players);
}

/// In the row of a player stand the name and the address at the left, and the
/// button at the right.
pub proof fn law_players_have_their_columns(area: Rect, row: PlayerRow)
    requires
        layout::divided(layout::player_columns(area, 12), layout::player_pieces(row)),
        width_of(area) >= 52,
    ensures
        is_column(area, row.name, 0, 16),
        is_column(area, row.addr, 17, 21),
        is_column(area, row.disconnect, width_of(area) - 12, 12),
{
    let split = layout::player_columns(area, 12);
    let pieces = layout::player_pieces(row);
    lemma_sums4(split.constraints, split.size());
    lemma_gaps(split, 1, 4);
    reveal_with_fuel(SplitView::begin, 5);
    assert(split.spare() == 200 * (split.size() - 52));
    lemma_one_share(split.spare());
    assert(split.is_settled());
    assert(pieces[0] == row.name && pieces[1] == row.addr && pieces[3] == row.disconnect);
}

/// In the row of a line of the log stands the time at the left, and then the line.
pub proof fn law_lines_have_their_columns(area: Rect, row: LogRow)
    requires
        layout::divided(layout::log_columns(area), layout::log_pieces(row)),
        width_of(area) >= 22,
    ensures
        is_column(area, row.time, 0, 20),
        is_column(area, row.text, 22, width_of(area) - 22),
{
    let split = layout::log_columns(area);
    let pieces = layout::log_pieces(row);
    lemma_sums2(split.constraints, split.size());
    lemma_gaps(split, 2, 2);
    reveal_with_fuel(SplitView::begin, 3);
    assert(split.spare() == 200 * (split.size() - 22));
    lemma_one_share(split.spare());
    assert(split.is_settled());
    assert(pieces[0] == row.time && pieces[1] == row.text);
}

/// The menu: the help in the last line, the settings in the left half, and the
/// servers in the right one. The settings of the proxy have a place exactly where
/// they are shown.
pub proof fn law_the_menu_is_laid_out(l: MenuLayout, area: Rect, advanced: bool, servers: nat)
    requires
        l.fits(area, advanced, servers),
        area.fits(),
        area.height >= 22,
        area.width >= 24,
    ensures
        ({
            let left = l.left.within();
            let half = (area.width + 1) / 2;
            &&& is_row(area, l.help, area.height - 1, 1)
            &&& is_row(area, l.body, 0, area.height - 1)
            &&& is_column(l.body, l.left, 0, half)
            &&& is_column(l.body, l.right, half, area.width - half)
            &&& is_row(left, l.server_ip, 0, 3)
            &&& is_row(left, l.request_domain, 3, 3)
            &&& is_row(left, l.advanced_row, 6, 1)
            &&& is_row(left, l.advanced_text, 7, 9)
            &&& is_row(left, l.error_rem, 16, left.height - 19)
            &&& is_row(left, l.start, left.height - 3, 3)
            &&& is_column(l.advanced_row, l.advanced, 0, 10)
            &&& is_row(l.start, l.start_inner, 1, 1)
            &&& l.servers@.len() == servers
            &&& l.proxy is Some <==> advanced
            &&& l.proxy matches Some(b) ==> is_row(l.advanced_text, b.proxy_ip, 0, 3) && is_row(
                l.advanced_text,
                b.play_port,
                3,
                3,
            ) && is_row(l.advanced_text, b.init_port, 6, 3)
        }),
{
    layout::law_help_is_the_last_line(area, l.body, l.help);
    layout::law_columns_share_the_screen(l.body, l.left, l.right);
    let left = l.left.within();
    let fields = seq![
        l.server_ip,
        l.request_domain,
        l.advanced_row,
        l.advanced_text,
        l.error_rem,
        l.start,
    ];
    law_menu_parts_are_stacked(left, fields);
    assert(fields[0] == l.server_ip && fields[1] == l.request_domain && fields[2] == l.advanced_row
        && fields[3] == l.advanced_text && fields[4] == l.error_rem && fields[5] == l.start);
    lemma_left_button(l.advanced_row, 10, l.advanced);
    law_lines_stand_in_the_middle(l.start, l.start_inner);
    if let Some(b) = l.proxy {
        let rows = seq![b.proxy_ip, b.play_port, b.init_port];
        law_proxy_settings_are_stacked(l.advanced_text, rows);
        assert(rows[0] == b.proxy_ip && rows[1] == b.play_port && rows[2] == b.init_port);
    }
}

proof fn lemma_left_button(area: Rect, width: u16, button: Rect)
    requires
        layout::divided(layout::left_button(area, width), seq![button]),
        width <= width_of(area),
    ensures
        is_column(area, button, 0, width as int),
{
    let split = layout::left_button(area, width);
    lemma_sums1(split.constraints, split.size());
    lemma_no_gaps(split);
    assert(split.is_settled());
    assert(seq![button][0] == button);
}

proof fn lemma_middle_button(area: Rect, width: u16, button: Rect)
    requires
        layout::divided(layout::middle_button(area, width), seq![button]),
        width <= width_of(area),
    ensures
        is_column(area, button, (width_of(area) - width + 1) / 2, width as int),
{
    let split = layout::middle_button(area, width);
    lemma_sums1(split.constraints, split.size());
    lemma_no_gaps(split);
    assert(split.spare() == 200 * (split.size() - width));
    assert(split.is_settled());
    assert(seq![button][0] == button);
}

/// While the proxy is connected to: the help in the last line, and in the middle
/// what is waited for, and the button below it.
pub proof fn law_the_waiting_is_laid_out(l: LoadingLayout, area: Rect)
    requires
        l.fits(area),
        area.fits(),
        area.height >= 6,
        area.width >= 40,
    ensures
        ({
            let top = (area.height - 5) / 2;
            &&& is_row(area, l.help, area.height - 1, 1)
            &&& l.loading.y == area.y + top && l.loading.height == 3
            &&& l.cancel.y == area.y + top + 4 && l.cancel.height == 1
            &&& l.cancel.width == 8
            &&& l.loading.x <= l.cancel.x && l.cancel.x + 8 <= l.loading.x + l.loading.width
        }),
{
    layout::law_help_is_the_last_line(area, l.body, l.help);
    law_a_quarter_stands_in_the_middle(l.body, l.middle);
    law_waiting_stands_in_the_middle(l.middle, l.loading, l.cancel_row);
    lemma_middle_button(l.cancel_row, 8, l.cancel);
}

/// After a failure: the help in the last line, and in the middle what went wrong,
/// and below it when it is tried again, and the buttons. The button that tries
/// again has a place, left of the other, exactly where it is tried again.
pub proof fn law_the_failure_is_laid_out(l: FailedLayout, area: Rect, permanent: bool)
    requires
        l.fits(area, permanent),
        area.fits(),
        area.height >= 13,
        area.width >= 60,
    ensures
        ({
            let top = (area.height - 12) / 2;
            &&& is_row(area, l.help, area.height - 1, 1)
            &&& l.msg.y == area.y + top && l.msg.height == 7
            &&& l.retry_in.y == area.y + top + 7 && l.retry_in.height == 3
            &&& l.cancel.y == area.y + top + 11 && l.cancel.height == 1 && l.cancel.width == 8
            &&& l.retry is Some <==> !permanent
            &&& l.retry matches Some(retry) ==> {
                &&& retry.y == l.cancel.y && retry.height == 1 && retry.width == 11
                &&& retry.x + 12 == l.cancel.x
            }
        }),
{
    layout::law_help_is_the_last_line(area, l.body, l.help);
    law_two_fifths_stand_in_the_middle(l.body, l.middle);
    let rows = seq![l.msg, l.retry_in, l.gap, l.buttons];
    law_failures_stand_in_the_middle(l.middle, rows);
    assert(rows[0] == l.msg && rows[1] == l.retry_in && rows[3] == l.buttons);
    match l.retry {
        Some(retry) => law_two_buttons_stand_in_the_middle(l.buttons, 11, 8, retry, l.cancel),
        None => lemma_middle_button(l.buttons, 8, l.cancel),
    }
}

/// A shared server: the help in the last line, the address and the players in the
/// left half, and the log in the right one. As many players and lines are shown as
/// there are rows for, the players from the top, and the log from the bottom.
pub proof fn law_the_server_is_laid_out(
    l: RunningLayout,
    area: Rect,
    players: nat,
    logs: nat,
    i: int,
)
    requires
        l.fits(area, players, logs),
        area.fits(),
        area.height >= 7,
        area.width >= 108,
    ensures
        ({
            let half = (area.width + 1) / 2;
            let room = l.players.within();
            let log = l.right.within();
            &&& is_row(area, l.help, area.height - 1, 1)
            &&& is_column(l.body, l.left, 0, half)
            &&& is_column(l.body, l.right, half, area.width - half)
            &&& is_row(l.left, l.ip, 0, 3)
            &&& is_row(l.left, l.players, 3, area.height - 4)
            &&& l.player_rows@.len() == if players < room.height {
                players
            } else {
                room.height as nat
            }
            &&& l.log_rows@.len() == if logs < log.height {
                logs
            } else {
                log.height as nat
            }
            &&& 0 <= i < l.player_rows@.len() ==> {
                let row = l.player_rows@[i];
                &&& row.name == (Rect { x: room.x, y: (room.y + i) as u16, width: 16, height: 1 })
                &&& row.addr == (Rect {
                    x: (room.x + 17) as u16,
                    y: (room.y + i) as u16,
                    width: 21,
                    height: 1,
                })
                &&& row.disconnect == (Rect {
                    x: (room.x + room.width - 12) as u16,
                    y: (room.y + i) as u16,
                    width: 12,
                    height: 1,
                })
            }
            &&& 0 <= i < l.log_rows@.len() ==> {
                let row = l.log_rows@[i];
                let y = (log.y + log.height - 1 - i) as u16;
                &&& row.time == (Rect { x: log.x, y, width: 20, height: 1 })
                &&& row.text == (Rect {
                    x: (log.x + 22) as u16,
                    y,
                    width: (log.width - 22) as u16,
                    height: 1,
                })
            }
        }),
{
    layout::law_help_is_the_last_line(area, l.body, l.help);
    law_halves_share_the_screen(l.body, l.left, l.right);
    law_the_address_stands_above(l.left, l.ip, l.players);
    let room = l.players.within();
    let log = l.right.within();
    if 0 <= i < l.player_rows@.len() {
        law_players_have_their_columns(room.row_list()[i], l.player_rows@[i]);
    }
    if 0 <= i < l.log_rows@.len() {
        law_lines_have_their_columns(log.row_list()[log.height - 1 - i], l.log_rows@[i]);
    }
}

/// What is said here of the screens is said of how they are divided.
pub proof fn law_the_screens_are_divided_so(
    area: Rect,
    advanced: bool,
    servers: usize,
    menu: MenuLayout,
    waiting: LoadingLayout,
    permanent: bool,
    failure: FailedLayout,
    players: usize,
    logs: usize,
    server: RunningLayout,
)
    requires
        call_ensures(MenuLayout::new, (area, advanced, servers), menu),
        call_ensures(LoadingLayout::new, (area,), waiting),
        call_ensures(FailedLayout::new, (area, permanent), failure),
        call_ensures(RunningLayout::new, (area, players, logs), server),
    ensures
        menu.fits(area, advanced, servers as nat),
        waiting.fits(area),
        failure.fits(area, permanent),
        server.fits(area, players as nat, logs as nat),
{
}

} // verus!
