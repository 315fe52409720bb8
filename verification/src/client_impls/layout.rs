//! How the screen is divided.

use crate::client_impls::geometry::Rect;
use crate::client_impls::types::AdvancedBoxes;
use ratatui::layout::Constraint as TuiConstraint;
use ratatui::layout::Flex as TuiFlex;
use ratatui::layout::Layout as TuiLayout;
use ratatui::layout::Rect as TuiRect;
use vstd::prelude::*;

verus! {

/// The axis along which a part of the screen is divided.
#[derive(Debug, Clone, Copy, PartialEq, Eq, Structural)]
pub enum Direction {
    Horizontal,
    Vertical,
}

/// How much of a part of the screen a piece gets.
#[derive(Debug, Clone, Copy, PartialEq, Eq, Structural)]
pub enum Constraint {
    /// This many cells.
    Length(u16),
    /// This share, in percent.
    Percentage(u16),
    /// A share of what is left.
    Fill(u16),
}

/// Where the pieces stand that do not fill a part of the screen.
#[derive(Debug, Clone, Copy, PartialEq, Eq, Structural)]
pub enum Flex {
    Start,
    Center,
}

/// A division of a part of the screen.
#[derive(Debug)]
pub struct Split {
    pub area: Rect,
    pub direction: Direction,
    pub constraints: Vec<Constraint>,
    /// Where the pieces stand.
    pub flex: Flex,
    /// How many cells are left free between two pieces.
    pub spacing: u16,
}

/// A [`Split`] with its list as a sequence.
#[verifier::ext_equal]
pub struct SplitView {
    pub area: Rect,
    pub direction: Direction,
    pub constraints: Seq<Constraint>,
    pub flex: Flex,
    pub spacing: u16,
}

impl View for Split {
    type V = SplitView;

    open spec fn view(&self) -> SplitView {
        SplitView {
            area: self.area,
            direction: self.direction,
            constraints: self.constraints@,
            flex: self.flex,
            spacing: self.spacing,
        }
    }
}

impl SplitView {
    /// Where the part begins along the axis.
    pub open spec fn start(self) -> int {
        match self.direction {
            Direction::Horizontal => self.area.x as int,
            Direction::Vertical => self.area.y as int,
        }
    }

    /// How many cells the part has along the axis.
    pub open spec fn size(self) -> int {
        match self.direction {
            Direction::Horizontal => self.area.right() - self.area.x,
            Direction::Vertical => self.area.bottom() - self.area.y,
        }
    }

    /// What is left when every piece but those that share the rest has its size,
    /// in two hundredths of a cell.
    pub open spec fn spare(self) -> int {
        200 * self.size() - wanted_sum(self.constraints, self.size()) - 200 * self.spacing * (
        self.constraints.len() - 1)
    }

    /// How large a piece is, in two hundredths of a cell. Those that share the
    /// rest get the same.
    pub open spec fn extent(self, i: int) -> int {
        match self.constraints[i] {
            Constraint::Fill(_) => self.spare() / fills(self.constraints) as int,
            c => wanted(c, self.size()),
        }
    }

    /// Where a piece begins, in two hundredths of a cell: behind the one before
    /// it and the gap. What nothing fills is left at the end, or half of it at
    /// either side.
    pub open spec fn begin(self, i: int) -> int
        decreases i,
    {
        if i <= 0 {
            200 * self.start() + if self.flex == Flex::Center && fills(self.constraints) == 0 {
                self.spare() / 2
            } else {
                0
            }
        } else {
            self.begin(i - 1) + self.extent(i - 1) + 200 * self.spacing
        }
    }

    /// Whether the sizes of the pieces are settled: there is room for all of
    /// them, the rest is shared evenly, and no border comes so close to the
    /// middle of a cell that it depends on how fractions are rounded.
    pub open spec fn is_settled(self) -> bool {
        &&& self.spacing <= i16::MAX
        &&& self.constraints.len() <= u16::MAX
        &&& self.spare() >= 0
        &&& fills(self.constraints) > 0 ==> self.spare() % fills(self.constraints) as int == 0
        &&& forall|i: int|
            0 <= i < self.constraints.len() ==> match #[trigger] self.constraints[i] {
                Constraint::Fill(n) => n == 1,
                _ => true,
            }
        &&& forall|i: int|
            0 <= i < self.constraints.len() ==> is_clear(#[trigger] self.begin(i)) && is_clear(
                self.begin(i) + self.extent(i),
            )
    }
}

/// How large a piece is meant to be, in two hundredths of a cell, without its
/// share of the rest.
pub open spec fn wanted(c: Constraint, size: int) -> int {
    match c {
        Constraint::Length(n) => 200 * n,
        Constraint::Percentage(p) => 2 * p * size,
        Constraint::Fill(_) => 0,
    }
}

/// How large the pieces are meant to be together.
pub open spec fn wanted_sum(constraints: Seq<Constraint>, size: int) -> int
    decreases constraints.len(),
{
    if constraints.len() == 0 {
        0
    } else {
        wanted_sum(constraints.drop_last(), size) + wanted(constraints.last(), size)
    }
}

/// How many pieces share the rest.
pub open spec fn fills(constraints: Seq<Constraint>) -> nat
    decreases constraints.len(),
{
    if constraints.len() == 0 {
        0
    } else {
        fills(constraints.drop_last()) + if constraints.last() is Fill {
            1nat
        } else {
            0
        }
    }
}

/// Whether a border is off the place at which it cannot be told to which cell it
/// is rounded.
pub open spec fn is_clear(border: int) -> bool {
    border % 200 != 99
}

/// The cell that a border is rounded to.
pub open spec fn cell_of(border: int) -> int {
    (border + 100) / 200
}

/// Whether a piece lies as it has to: in the part that is divided, and across
/// the axis as large as that.
pub open spec fn is_piece(area: Rect, direction: Direction, piece: Rect) -> bool {
    match direction {
        Direction::Horizontal => {
            &&& piece.y == area.y && piece.height == area.height
            &&& area.x <= piece.x && piece.x + piece.width <= area.right()
        },
        Direction::Vertical => {
            &&& piece.x == area.x && piece.width == area.width
            &&& area.y <= piece.y && piece.y + piece.height <= area.bottom()
        },
    }
}

/// Whether a piece begins and ends here along the axis.
pub open spec fn is_placed(direction: Direction, piece: Rect, begin: int, end: int) -> bool {
    match direction {
        Direction::Horizontal => piece.x == begin && piece.x + piece.width == end,
        Direction::Vertical => piece.y == begin && piece.y + piece.height == end,
    }
}

/// Whether these are pieces that a division can give.
pub open spec fn divided(split: SplitView, pieces: Seq<Rect>) -> bool {
    &&& pieces.len() == split.constraints.len()
    &&& forall|i: int|
        0 <= i < pieces.len() ==> is_piece(split.area, split.direction, #[trigger] pieces[i])
    &&& split.is_settled() ==> forall|i: int|
        0 <= i < pieces.len() ==> is_placed(
            split.direction,
            #[trigger] pieces[i],
            cell_of(split.begin(i)),
            cell_of(split.begin(i) + split.extent(i)),
        )
}

/// A part of the screen as its column, row, width and height.
pub type Corners = (u16, u16, u16, u16);

/// The part of the screen with these numbers.
pub open spec fn rect_of(c: Corners) -> Rect {
    Rect { x: c.0, y: c.1, width: c.2, height: c.3 }
}

/// `ratatui::layout::Layout::split` divides a part of the screen into as many
/// pieces as there are constraints, all of them in that part. Where every
/// constraint can be met, the pieces have the sizes that the constraints ask for,
/// stand where the flex and the spacing put them, and their borders are rounded
/// to the nearest cell. Where they cannot all be met, the sizes come from a
/// solver that walks hash maps with a seed of their own in each process, so they
/// are not claimed.
#[verifier::external_body]
fn solve(split: &Split) -> (r: Vec<Corners>)
    ensures
        divided(split@, r@.map_values(|c: Corners| rect_of(c))),
{
    let constraints = split.constraints.iter().map(|c| match *c {
        Constraint::Length(n) => TuiConstraint::Length(n),
        Constraint::Percentage(n) => TuiConstraint::Percentage(n),
        Constraint::Fill(n) => TuiConstraint::Fill(n),
    });
    let layout = match split.direction {
        Direction::Horizontal => TuiLayout::horizontal(constraints),
        Direction::Vertical => TuiLayout::vertical(constraints),
    };
    let layout = match split.flex {
        Flex::Start => layout,
        Flex::Center => layout.flex(TuiFlex::Center),
    };
    let Rect { x, y, width, height } = split.area;
    layout.spacing(split.spacing).split(TuiRect { x, y, width, height }).iter().map(|r| (r.x, r.y, r.width, r.height)).collect()
}

/// A division without gaps.
pub open spec fn plain_split(
    area: Rect,
    direction: Direction,
    constraints: Seq<Constraint>,
    flex: Flex,
) -> SplitView {
    SplitView { area, direction, constraints, flex, spacing: 0 }
}

/// The screen, and a line of help at its bottom.
pub open spec fn help_split(area: Rect) -> SplitView {
    plain_split(
        area,
        Direction::Vertical,
        seq![Constraint::Fill(1), Constraint::Length(1)],
        Flex::Start,
    )
}

/// The menu, and the servers that were found.
pub open spec fn menu_columns(area: Rect) -> SplitView {
    plain_split(
        area,
        Direction::Horizontal,
        seq![Constraint::Percentage(50), Constraint::Percentage(50)],
        Flex::Start,
    )
}

/// The parts of the menu, one below the other.
pub open spec fn menu_fields(area: Rect) -> SplitView {
    plain_split(
        area,
        Direction::Vertical,
        seq![
            Constraint::Length(3),
            Constraint::Length(3),
            Constraint::Length(1),
            Constraint::Length(9),
            Constraint::Fill(1),
            Constraint::Length(3),
        ],
        Flex::Start,
    )
}

/// The settings of the proxy, one below the other.
pub open spec fn proxy_fields(area: Rect) -> SplitView {
    plain_split(
        area,
        Direction::Vertical,
        seq![Constraint::Length(3), Constraint::Length(3), Constraint::Length(3)],
        Flex::Start,
    )
}

/// A button of this width at the left.
pub open spec fn left_button(area: Rect, width: u16) -> SplitView {
    plain_split(area, Direction::Horizontal, seq![Constraint::Length(width)], Flex::Start)
}

/// A button of this width in the middle.
pub open spec fn middle_button(area: Rect, width: u16) -> SplitView {
    plain_split(area, Direction::Horizontal, seq![Constraint::Length(width)], Flex::Center)
}

/// A line in the middle.
pub open spec fn middle_line(area: Rect) -> SplitView {
    plain_split(area, Direction::Vertical, seq![Constraint::Length(1)], Flex::Center)
}

/// A column of this share in the middle.
pub open spec fn middle_column(area: Rect, percent: u16) -> SplitView {
    plain_split(area, Direction::Horizontal, seq![Constraint::Percentage(percent)], Flex::Center)
}

/// The servers that were found, one below the other, and what follows them.
pub open spec fn server_rows(area: Rect, servers: nat) -> SplitView {
    plain_split(
        area,
        Direction::Vertical,
        Seq::new(servers, |i: int| Constraint::Length(4)).push(Constraint::Length(3)),
        Flex::Start,
    )
}

/// What is being waited for, and a button below it.
pub open spec fn loading_rows(area: Rect) -> SplitView {
    SplitView {
        area,
        direction: Direction::Vertical,
        constraints: seq![Constraint::Length(3), Constraint::Length(1)],
        flex: Flex::Center,
        spacing: 1,
    }
}

/// What went wrong, when it is tried again, a gap, and the buttons.
pub open spec fn failed_rows(area: Rect) -> SplitView {
    plain_split(
        area,
        Direction::Vertical,
        seq![
            Constraint::Length(7),
            Constraint::Length(3),
            Constraint::Length(1),
            Constraint::Length(1),
        ],
        Flex::Center,
    )
}

/// Two buttons beside each other in the middle.
pub open spec fn two_buttons(area: Rect, first: u16, second: u16) -> SplitView {
    SplitView {
        area,
        direction: Direction::Horizontal,
        constraints: seq![Constraint::Length(first), Constraint::Length(second)],
        flex: Flex::Center,
        spacing: 1,
    }
}

/// Two columns of the same width.
pub open spec fn halves(area: Rect) -> SplitView {
    plain_split(
        area,
        Direction::Horizontal,
        seq![Constraint::Fill(1), Constraint::Fill(1)],
        Flex::Start,
    )
}

/// The address of the server, and the players below it.
pub open spec fn running_rows(area: Rect) -> SplitView {
    plain_split(
        area,
        Direction::Vertical,
        seq![Constraint::Length(3), Constraint::Fill(1)],
        Flex::Start,
    )
}

/// The name of a player, the address, a gap, and a button of this width.
pub open spec fn player_columns(area: Rect, width: u16) -> SplitView {
    SplitView {
        area,
        direction: Direction::Horizontal,
        constraints: seq![
            Constraint::Length(16),
            Constraint::Length(21),
            Constraint::Fill(1),
            Constraint::Length(width),
        ],
        flex: Flex::Start,
        spacing: 1,
    }
}

/// The time of a line of the log, and the line.
pub open spec fn log_columns(area: Rect) -> SplitView {
    SplitView {
        area,
        direction: Direction::Horizontal,
        constraints: seq![Constraint::Length(20), Constraint::Fill(1)],
        flex: Flex::Start,
        spacing: 2,
    }
}

impl Split {
    /// The screen, and a line of help at its bottom.
    pub fn help(area: Rect) -> (r: Split)
        ensures
            r@ == help_split(area),
    {
        let r = Split {
            area,
            direction: Direction::Vertical,
            constraints: vec![Constraint::Fill(1), Constraint::Length(1)],
            flex: Flex::Start,
            spacing: 0,
        };
        assert(r@ =~= help_split(area));
        r
    }

    /// The menu, and the servers that were found.
    pub fn menu_columns(area: Rect) -> (r: Split)
        ensures
            r@ == menu_columns(area),
    {
        let r = Split {
            area,
            direction: Direction::Horizontal,
            constraints: vec![Constraint::Percentage(50), Constraint::Percentage(50)],
            flex: Flex::Start,
            spacing: 0,
        };
        assert(r@ =~= menu_columns(area));
        r
    }

    /// The parts of the menu, one below the other.
    pub fn menu_fields(area: Rect) -> (r: Split)
        ensures
            r@ == menu_fields(area),
    {
        let r = Split {
            area,
            direction: Direction::Vertical,
            constraints: vec![
                Constraint::Length(3),
                Constraint::Length(3),
                Constraint::Length(1),
                Constraint::Length(9),
                Constraint::Fill(1),
                Constraint::Length(3),
            ],
            flex: Flex::Start,
            spacing: 0,
        };
        assert(r@ =~= menu_fields(area));
        r
    }

    /// The settings of the proxy, one below the other.
    pub fn proxy_fields(area: Rect) -> (r: Split)
        ensures
            r@ == proxy_fields(area),
    {
        let r = Split {
            area,
            direction: Direction::Vertical,
            constraints: vec![Constraint::Length(3), Constraint::Length(3), Constraint::Length(3)],
            flex: Flex::Start,
            spacing: 0,
        };
        assert(r@ =~= proxy_fields(area));
        r
    }

    /// A button of this width at the left.
    pub fn left_button(area: Rect, width: u16) -> (r: Split)
        ensures
            r@ == left_button(area, width),
    {
        let r = Split {
            area,
            direction: Direction::Horizontal,
            constraints: vec![Constraint::Length(width)],
            flex: Flex::Start,
            spacing: 0,
        };
        assert(r@ =~= left_button(area, width));
        r
    }

    /// A button of this width in the middle.
    pub fn middle_button(area: Rect, width: u16) -> (r: Split)
        ensures
            r@ == middle_button(area, width),
    {
        let r = Split {
            area,
            direction: Direction::Horizontal,
            constraints: vec![Constraint::Length(width)],
            flex: Flex::Center,
            spacing: 0,
        };
        assert(r@ =~= middle_button(area, width));
        r
    }

    /// A line in the middle.
    pub fn middle_line(area: Rect) -> (r: Split)
        ensures
            r@ == middle_line(area),
    {
        let r = Split {
            area,
            direction: Direction::Vertical,
            constraints: vec![Constraint::Length(1)],
            flex: Flex::Center,
            spacing: 0,
        };
        assert(r@ =~= middle_line(area));
        r
    }

    /// A column of this share in the middle.
    pub fn middle_column(area: Rect, percent: u16) -> (r: Split)
        ensures
            r@ == middle_column(area, percent),
    {
        let r = Split {
            area,
            direction: Direction::Horizontal,
            constraints: vec![Constraint::Percentage(percent)],
            flex: Flex::Center,
            spacing: 0,
        };
        assert(r@ =~= middle_column(area, percent));
        r
    }

    /// What is being waited for, and a button below it.
    pub fn loading_rows(area: Rect) -> (r: Split)
        ensures
            r@ == loading_rows(area),
    {
        let r = Split {
            area,
            direction: Direction::Vertical,
            constraints: vec![Constraint::Length(3), Constraint::Length(1)],
            flex: Flex::Center,
            spacing: 1,
        };
        assert(r@ =~= loading_rows(area));
        r
    }

    /// What went wrong, when it is tried again, a gap, and the buttons.
    pub fn failed_rows(area: Rect) -> (r: Split)
        ensures
            r@ == failed_rows(area),
    {
        let r = Split {
            area,
            direction: Direction::Vertical,
            constraints: vec![
                Constraint::Length(7),
                Constraint::Length(3),
                Constraint::Length(1),
                Constraint::Length(1),
            ],
            flex: Flex::Center,
            spacing: 0,
        };
        assert(r@ =~= failed_rows(area));
        r
    }

    /// Two buttons beside each other in the middle.
    pub fn two_buttons(area: Rect, first: u16, second: u16) -> (r: Split)
        ensures
            r@ == two_buttons(area, first, second),
    {
        let r = Split {
            area,
            direction: Direction::Horizontal,
            constraints: vec![Constraint::Length(first), Constraint::Length(second)],
            flex: Flex::Center,
            spacing: 1,
        };
        assert(r@ =~= two_buttons(area, first, second));
        r
    }

    /// Two columns of the same width.
    pub fn halves(area: Rect) -> (r: Split)
        ensures
            r@ == halves(area),
    {
        let r = Split {
            area,
            direction: Direction::Horizontal,
            constraints: vec![Constraint::Fill(1), Constraint::Fill(1)],
            flex: Flex::Start,
            spacing: 0,
        };
        assert(r@ =~= halves(area));
        r
    }

    /// The address of the server, and the players below it.
    pub fn running_rows(area: Rect) -> (r: Split)
        ensures
            r@ == running_rows(area),
    {
        let r = Split {
            area,
            direction: Direction::Vertical,
            constraints: vec![Constraint::Length(3), Constraint::Fill(1)],
            flex: Flex::Start,
            spacing: 0,
        };
        assert(r@ =~= running_rows(area));
        r
    }

    /// The name of a player, the address, a gap, and a button of this width.
    pub fn player_columns(area: Rect, width: u16) -> (r: Split)
        ensures
            r@ == player_columns(area, width),
    {
        let r = Split {
            area,
            direction: Direction::Horizontal,
            constraints: vec![
                Constraint::Length(16),
                Constraint::Length(21),
                Constraint::Fill(1),
                Constraint::Length(width),
            ],
            flex: Flex::Start,
            spacing: 1,
        };
        assert(r@ =~= player_columns(area, width));
        r
    }

    /// The time of a line of the log, and the line.
    pub fn log_columns(area: Rect) -> (r: Split)
        ensures
            r@ == log_columns(area),
    {
        let r = Split {
            area,
            direction: Direction::Horizontal,
            constraints: vec![Constraint::Length(20), Constraint::Fill(1)],
            flex: Flex::Start,
            spacing: 2,
        };
        assert(r@ =~= log_columns(area));
        r
    }

    /// The servers that were found, one below the other, and what follows them.
    pub fn server_rows(area: Rect, servers: usize) -> (r: Split)
        ensures
            r@ == server_rows(area, servers as nat),
    {
        let mut constraints: Vec<Constraint> = Vec::new();
        let mut i: usize = 0;
        while i < servers
            invariant
                i <= servers,
                constraints@ == Seq::new(i as nat, |i: int| Constraint::Length(4)),
            decreases servers - i,
        {
            constraints.push(Constraint::Length(4));
            i = i + 1;
            assert(constraints@ =~= Seq::new(i as nat, |i: int| Constraint::Length(4)));
        }
        constraints.push(Constraint::Length(3));
        Split { area, direction: Direction::Vertical, constraints, flex: Flex::Start, spacing: 0 }
    }

    /// Divides the part of the screen.
    pub fn divide(&self) -> (r: Vec<Rect>)
        ensures
            divided(self@, r@),
    {
        let corners = solve(self);
        let ghost want = corners@.map_values(|c: Corners| rect_of(c));
        let mut pieces: Vec<Rect> = Vec::new();
        let mut i: usize = 0;
        assert(pieces@ =~= want.take(0));
        while i < corners.len()
            invariant
                i <= corners@.len(),
                want == corners@.map_values(|c: Corners| rect_of(c)),
                pieces@ == want.take(i as int),
            decreases corners@.len() - i,
        {
            let (x, y, width, height) = corners[i];
            pieces.push(Rect { x, y, width, height });
            i = i + 1;
            assert(want.take(i as int) =~= want.take(i - 1).push(want[i - 1]));
        }
        assert(want.take(i as int) =~= want);
        pieces
    }

    /// Divides the part of the screen, where that gives one piece.
    fn divide1(&self) -> (r: Rect)
        requires
            self@.constraints.len() == 1,
        ensures
            divided(self@, seq![r]),
    {
        let v = self.divide();
        assert(v@ =~= seq![v@[0]]);
        v[0]
    }

    /// Divides the part of the screen, where that gives two pieces.
    fn divide2(&self) -> (r: (Rect, Rect))
        requires
            self@.constraints.len() == 2,
        ensures
            divided(self@, seq![r.0, r.1]),
    {
        let v = self.divide();
        assert(v@ =~= seq![v@[0], v@[1]]);
        (v[0], v[1])
    }
}

/// The screen above a line of help, and that line.
pub fn with_help(area: Rect) -> (r: (Rect, Rect))
    ensures
        divided(help_split(area), seq![r.0, r.1]),
{
    Split::help(area).divide2()
}

/// Where the parts of the menu are drawn.
#[derive(Debug)]
pub struct MenuLayout {
    pub body: Rect,
    pub help: Rect,
    pub left: Rect,
    pub right: Rect,
    pub server_ip: Rect,
    pub request_domain: Rect,
    pub advanced_row: Rect,
    pub advanced_text: Rect,
    pub error_rem: Rect,
    pub start: Rect,
    pub advanced: Rect,
    pub start_inner: Rect,
    pub servers: Vec<Rect>,
    pub loading_row: Rect,
    pub loading: Rect,
    pub proxy: Option<AdvancedBoxes>,
}

/// How wide the button is that shows the settings of the proxy.
pub const ADVANCED_WIDTH: u16 = 10;

impl MenuLayout {
    /// Whether the parts lie where a screen of this size with this many servers
    /// has them.
    pub open spec fn fits(self, area: Rect, advanced: bool, servers: nat) -> bool {
        &&& divided(help_split(area), seq![self.body, self.help])
        &&& divided(menu_columns(self.body), seq![self.left, self.right])
        &&& divided(
            menu_fields(self.left.within()),
            seq![
                self.server_ip,
                self.request_domain,
                self.advanced_row,
                self.advanced_text,
                self.error_rem,
                self.start,
            ],
        )
        &&& divided(left_button(self.advanced_row, ADVANCED_WIDTH), seq![self.advanced])
        &&& divided(middle_line(self.start), seq![self.start_inner])
        &&& divided(
            server_rows(self.right.within(), servers),
            self.servers@.push(self.loading_row),
        )
        &&& divided(middle_line(self.loading_row), seq![self.loading])
        &&& match self.proxy {
            Some(b) => advanced && divided(
                proxy_fields(self.advanced_text),
                seq![b.proxy_ip, b.play_port, b.init_port],
            ),
            None => !advanced,
        }
    }

    /// Divides a screen of this size.
    pub fn new(area: Rect, advanced: bool, servers: usize) -> (r: MenuLayout)
        ensures
            r.fits(area, advanced, servers as nat),
    {
        let (body, help) = with_help(area);
        let (left, right) = Split::menu_columns(body).divide2();
        let f = Split::menu_fields(left.inner()).divide();
        assert(f@ =~= seq![f@[0], f@[1], f@[2], f@[3], f@[4], f@[5]]);
        let advanced_rect = Split::left_button(f[2], ADVANCED_WIDTH).divide1();
        let start_inner = Split::middle_line(f[5]).divide1();
        let mut blocks = Split::server_rows(right.inner(), servers).divide();
        let ghost all = blocks@;
        let last: usize = blocks.len() - 1;
        let loading_row = blocks[last];
        blocks.truncate(last);
        assert(blocks@.push(loading_row) =~= all);
        let loading = Split::middle_line(loading_row).divide1();
        let proxy = if advanced {
            let p = Split::proxy_fields(f[3]).divide();
            assert(p@ =~= seq![p@[0], p@[1], p@[2]]);
            Some(AdvancedBoxes { proxy_ip: p[0], play_port: p[1], init_port: p[2] })
        } else {
            None
        };
        MenuLayout {
            body,
            help,
            left,
            right,
            server_ip: f[0],
            request_domain: f[1],
            advanced_row: f[2],
            advanced_text: f[3],
            error_rem: f[4],
            start: f[5],
            advanced: advanced_rect,
            start_inner,
            servers: blocks,
            loading_row,
            loading,
            proxy,
        }
    }
}

/// Where the parts of the screen are drawn while the proxy is connected to.
#[derive(Debug, Clone, Copy, PartialEq, Eq, Structural)]
pub struct LoadingLayout {
    pub body: Rect,
    pub help: Rect,
    pub middle: Rect,
    pub loading: Rect,
    pub cancel_row: Rect,
    pub cancel: Rect,
}

/// How wide the button is that leaves a screen.
pub const CANCEL_WIDTH: u16 = 8;

impl LoadingLayout {
    /// Whether the parts lie where a screen of this size has them.
    pub open spec fn fits(self, area: Rect) -> bool {
        &&& divided(help_split(area), seq![self.body, self.help])
        &&& divided(middle_column(self.body, 25), seq![self.middle])
        &&& divided(loading_rows(self.middle), seq![self.loading, self.cancel_row])
        &&& divided(middle_button(self.cancel_row, CANCEL_WIDTH), seq![self.cancel])
    }

    /// Divides a screen of this size.
    pub fn new(area: Rect) -> (r: LoadingLayout)
        ensures
            r.fits(area),
    {
        let (body, help) = with_help(area);
        let middle = Split::middle_column(body, 25).divide1();
        let (loading, cancel_row) = Split::loading_rows(middle).divide2();
        let cancel = Split::middle_button(cancel_row, CANCEL_WIDTH).divide1();
        LoadingLayout { body, help, middle, loading, cancel_row, cancel }
    }
}

/// Where the parts of the screen are drawn after a failure.
#[derive(Debug, Clone, Copy, PartialEq, Eq, Structural)]
pub struct FailedLayout {
    pub body: Rect,
    pub help: Rect,
    pub middle: Rect,
    pub msg: Rect,
    pub retry_in: Rect,
    pub gap: Rect,
    pub buttons: Rect,
    pub cancel: Rect,
    pub retry: Option<Rect>,
}

/// How wide the button is that tries again.
pub const RETRY_WIDTH: u16 = 11;

impl FailedLayout {
    /// Whether the parts lie where a screen of this size has them, with or
    /// without a button that tries again.
    pub open spec fn fits(self, area: Rect, permanent: bool) -> bool {
        &&& divided(help_split(area), seq![self.body, self.help])
        &&& divided(middle_column(self.body, 40), seq![self.middle])
        &&& divided(
            failed_rows(self.middle),
            seq![self.msg, self.retry_in, self.gap, self.buttons],
        )
        &&& match self.retry {
            None => permanent && divided(
                middle_button(self.buttons, CANCEL_WIDTH),
                seq![self.cancel],
            ),
            Some(retry) => !permanent && divided(
                two_buttons(self.buttons, RETRY_WIDTH, CANCEL_WIDTH),
                seq![retry, self.cancel],
            ),
        }
    }

    /// Divides a screen of this size.
    pub fn new(area: Rect, permanent: bool) -> (r: FailedLayout)
        ensures
            r.fits(area, permanent),
    {
        let (body, help) = with_help(area);
        let middle = Split::middle_column(body, 40).divide1();
        let v = Split::failed_rows(middle).divide();
        assert(v@ =~= seq![v@[0], v@[1], v@[2], v@[3]]);
        let (cancel, retry) = if permanent {
            let cancel = Split::middle_button(v[3], CANCEL_WIDTH).divide1();
            (cancel, None)
        } else {
            let (retry, cancel) = Split::two_buttons(v[3], RETRY_WIDTH, CANCEL_WIDTH).divide2();
            (cancel, Some(retry))
        };
        FailedLayout {
            body,
            help,
            middle,
            msg: v[0],
            retry_in: v[1],
            gap: v[2],
            buttons: v[3],
            cancel,
            retry,
        }
    }
}

/// Where the parts of a row with a player are drawn.
#[derive(Debug, Clone, Copy, PartialEq, Eq, Structural)]
pub struct PlayerRow {
    pub name: Rect,
    pub addr: Rect,
    pub gap: Rect,
    pub disconnect: Rect,
}

/// Where the parts of a row with a line of the log are drawn.
#[derive(Debug, Clone, Copy, PartialEq, Eq, Structural)]
pub struct LogRow {
    pub time: Rect,
    pub text: Rect,
}

/// Where the parts of the screen of a shared server are drawn.
#[derive(Debug)]
pub struct RunningLayout {
    pub body: Rect,
    pub help: Rect,
    pub left: Rect,
    pub right: Rect,
    pub ip: Rect,
    pub players: Rect,
    /// The rows with players, from the top.
    pub player_rows: Vec<PlayerRow>,
    /// The rows with lines of the log, from the bottom.
    pub log_rows: Vec<LogRow>,
}

/// How wide the button is that cuts a player off.
pub const DISCONNECT_WIDTH: u16 = 12;

/// How many of `n` things have a row.
pub open spec fn shown(n: nat, rows: Seq<Rect>) -> nat {
    if n < rows.len() {
        n
    } else {
        rows.len()
    }
}

impl RunningLayout {
    /// Whether the parts lie where a screen of this size has them, with as many
    /// of these players and lines as have a row.
    pub open spec fn fits(self, area: Rect, players: nat, logs: nat) -> bool {
        let player_area = self.players.within().row_list();
        let log_area = self.right.within().row_list();
        &&& divided(help_split(area), seq![self.body, self.help])
        &&& divided(halves(self.body), seq![self.left, self.right])
        &&& divided(running_rows(self.left), seq![self.ip, self.players])
        &&& self.player_rows@.len() == shown(players, player_area)
        &&& self.log_rows@.len() == shown(logs, log_area)
        &&& forall|i: int|
            0 <= i < self.player_rows@.len() ==> divided(
                player_columns(player_area[i], DISCONNECT_WIDTH),
                player_pieces(#[trigger] self.player_rows@[i]),
            )
        &&& forall|i: int|
            0 <= i < self.log_rows@.len() ==> divided(
                log_columns(log_area[log_area.len() - 1 - i]),
                log_pieces(#[trigger] self.log_rows@[i]),
            )
    }

    /// Divides a screen of this size.
    pub fn new(area: Rect, players: usize, logs: usize) -> (r: RunningLayout)
        ensures
            r.fits(area, players as nat, logs as nat),
    {
        let (body, help) = with_help(area);
        let (left, right) = Split::halves(body).divide2();
        let (ip, players_rect) = Split::running_rows(left).divide2();
        proof {
            assert(is_piece(area, Direction::Vertical, seq![body, help][0]));
            assert(is_piece(body, Direction::Horizontal, seq![left, right][0]));
            assert(is_piece(body, Direction::Horizontal, seq![left, right][1]));
            assert(is_piece(left, Direction::Vertical, seq![ip, players_rect][1]));
        }
        let rows = players_rect.inner().rows();
        let mut player_rows: Vec<PlayerRow> = Vec::new();
        let mut i: usize = 0;
        while i < players && i < rows.len()
            invariant
                i <= players,
                i <= rows@.len(),
                i == player_rows@.len(),
                forall|k: int|
                    0 <= k < i ==> divided(
                        player_columns(rows@[k], DISCONNECT_WIDTH),
                        player_pieces(#[trigger] player_rows@[k]),
                    ),
            decreases players - i,
        {
            player_rows.push(divide_player(rows[i]));
            i = i + 1;
        }
        let lines = right.inner().rows();
        let mut log_rows: Vec<LogRow> = Vec::new();
        let mut j: usize = 0;
        while j < logs && j < lines.len()
            invariant
                j <= logs,
                j <= lines@.len(),
                j == log_rows@.len(),
                forall|k: int|
                    0 <= k < j ==> divided(
                        log_columns(lines@[lines@.len() - 1 - k]),
                        log_pieces(#[trigger] log_rows@[k]),
                    ),
            decreases logs - j,
        {
            log_rows.push(divide_log(lines[lines.len() - 1 - j]));
            j = j + 1;
        }
        RunningLayout {
            body,
            help,
            left,
            right,
            ip,
            players: players_rect,
            player_rows,
            log_rows,
        }
    }
}

/// The parts of a row with a player, from the left.
pub open spec fn player_pieces(row: PlayerRow) -> Seq<Rect> {
    seq![row.name, row.addr, row.gap, row.disconnect]
}

/// The parts of a row with a line of the log, from the left.
pub open spec fn log_pieces(row: LogRow) -> Seq<Rect> {
    seq![row.time, row.text]
}

fn divide_player(area: Rect) -> (r: PlayerRow)
    ensures
        divided(player_columns(area, DISCONNECT_WIDTH), player_pieces(r)),
{
    let v = Split::player_columns(area, DISCONNECT_WIDTH).divide();
    let row = PlayerRow { name: v[0], addr: v[1], gap: v[2], disconnect: v[3] };
    assert(v@ =~= player_pieces(row));
    row
}

fn divide_log(area: Rect) -> (r: LogRow)
    ensures
        divided(log_columns(area), log_pieces(r)),
{
    let (time, text) = Split::log_columns(area).divide2();
    LogRow { time, text }
}

proof fn lemma_no_gaps(split: SplitView)
    requires
        split.spacing == 0,
    ensures
        split.spare() == 200 * split.size() - wanted_sum(split.constraints, split.size()),
{
    assert(200 * split.spacing * (split.constraints.len() - 1) == 0) by (nonlinear_arith)
        requires
            split.spacing == 0,
    ;
}

/// The help stands in the last line of a screen, and the rest of the screen
/// above it.
pub proof fn law_help_is_the_last_line(area: Rect, body: Rect, help: Rect)
    requires
        divided(help_split(area), seq![body, help]),
        area.y < area.bottom(),
    ensures
        help == (Rect { y: (area.bottom() - 1) as u16, height: 1, ..area }),
        body == (Rect { height: (area.bottom() - 1 - area.y) as u16, ..area }),
{
    reveal_with_fuel(wanted_sum, 3);
    reveal_with_fuel(fills, 3);
    reveal_with_fuel(SplitView::begin, 3);
    let split = help_split(area);
    let c = split.constraints;
    let spare = 200 * (area.bottom() - area.y - 1);
    assert(c.drop_last() =~= seq![Constraint::Fill(1)]);
    assert(c.drop_last().drop_last() =~= Seq::empty());
    assert(fills(c) == 1);
    assert(wanted_sum(c.drop_last(), split.size()) == 0);
    assert(wanted_sum(c, split.size()) == 200);
    lemma_no_gaps(split);
    assert(spare / 1 == spare && spare % 1 == 0) by (nonlinear_arith);
    assert(split.extent(0) == spare && split.extent(1) == 200);
    assert(split.begin(0) == 200 * area.y && split.begin(1) == 200 * area.y + spare);
    assert(split.is_settled());
    assert(seq![body, help][0] == body);
    assert(seq![body, help][1] == help);
}

/// The menu and the servers that were found share the screen. Where its width is
/// odd, the menu is wider by one column.
pub proof fn law_columns_share_the_screen(area: Rect, left: Rect, right: Rect)
    requires
        divided(menu_columns(area), seq![left, right]),
    ensures
        ({
            let width = area.right() - area.x;
            let half = (width + 1) / 2;
            &&& left == (Rect { width: half as u16, ..area })
            &&& right == (Rect {
                x: (area.x + half) as u16,
                width: (width - half) as u16,
                ..area
            })
        }),
{
    reveal_with_fuel(wanted_sum, 3);
    reveal_with_fuel(fills, 3);
    reveal_with_fuel(SplitView::begin, 3);
    let split = menu_columns(area);
    let c = split.constraints;
    let half = 100 * (area.right() - area.x);
    assert(c.drop_last() =~= seq![Constraint::Percentage(50)]);
    assert(c.drop_last().drop_last() =~= Seq::empty());
    assert(split.extent(0) == half && split.extent(1) == half);
    assert(wanted_sum(c.drop_last(), split.size()) == half);
    assert(wanted_sum(c, split.size()) == half + half);
    lemma_no_gaps(split);
    assert(split.begin(0) == 200 * area.x && split.begin(1) == 200 * area.x + half);
    assert(split.is_settled());
    assert(seq![left, right][0] == left);
    assert(seq![left, right][1] == right);
}

/// A button that there is room for has the width that it is meant to have.
pub proof fn law_buttons_have_their_width(area: Rect, width: u16, left: Rect, middle: Rect)
    requires
        divided(left_button(area, width), seq![left]),
        divided(middle_button(area, width), seq![middle]),
        width <= area.right() - area.x,
    ensures
        left.width == width && left.x == area.x,
        middle.width == width,
        0 <= (middle.x - area.x) - (area.right() - middle.right()) <= 1,
{
    reveal_with_fuel(wanted_sum, 2);
    reveal_with_fuel(fills, 2);
    let c = seq![Constraint::Length(width)];
    assert(c.drop_last() =~= Seq::empty());
    assert(left_button(area, width).is_settled());
    assert(seq![left][0] == left);
    assert(middle_button(area, width).is_settled());
    assert(seq![middle][0] == middle);
}

} // verus!
