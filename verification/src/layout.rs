//! The rows of the console on the terminal.
use vstd::prelude::*;

verus! {

/// A rectangle of terminal cells.
#[derive(Clone, Copy, Debug, PartialEq, Eq, Structural)]
pub struct Area {
    pub x: u16,
    pub y: u16,
    pub width: u16,
    pub height: u16,
}

/// How high a row is to be.
#[derive(Clone, Copy, Debug, PartialEq, Eq, Structural)]
pub enum Row {
    /// As high as this.
    Length(u16),
    /// As high as this at least.
    Min(u16),
}

impl Area {
    /// What a margin on all sides leaves of the area; nothing, at the origin,
    /// where the margin is too wide.
    pub open spec fn inner(self, margin: nat) -> Area {
        if self.width < 2 * margin || self.height < 2 * margin {
            Area { x: 0, y: 0, width: 0, height: 0 }
        } else {
            Area {
                x: if self.x + margin > u16::MAX {
                    u16::MAX
                } else {
                    (self.x + margin) as u16
                },
                y: if self.y + margin > u16::MAX {
                    u16::MAX
                } else {
                    (self.y + margin) as u16
                },
                width: (self.width - 2 * margin) as u16,
                height: (self.height - 2 * margin) as u16,
            }
        }
    }

    /// The first line below the area, within the coordinates of a terminal.
    pub open spec fn bottom(self) -> int {
        if self.y + self.height > u16::MAX {
            u16::MAX as int
        } else {
            self.y + self.height
        }
    }

    /// The lines of the area within the coordinates of a terminal.
    pub open spec fn room(self) -> int {
        self.bottom() - self.y
    }
}

impl Row {
    /// The least height that the row asks for.
    pub open spec fn least(self) -> nat {
        match self {
            Row::Length(n) => n as nat,
            Row::Min(n) => n as nat,
        }
    }

    /// The row may grow.
    pub open spec fn grows(self) -> bool {
        self is Min
    }
}

/// The sum of the least heights of `rows`.
pub open spec fn least_height(rows: Seq<Row>) -> nat
    decreases rows.len(),
{
    if rows.len() == 0 {
        0
    } else {
        least_height(rows.drop_last()) + rows.last().least()
    }
}

/// The row at `i` is the only one that may grow.
pub open spec fn only_grows(rows: Seq<Row>, i: int) -> bool {
    &&& 0 <= i < rows.len()
    &&& rows[i].grows()
    &&& forall|j: int| 0 <= j < rows.len() && j != i ==> !(#[trigger] rows[j]).grows()
}

/// There is room for `rows` in `space`, and one of them to take what is left.
pub open spec fn rows_fit(space: Area, rows: Seq<Row>) -> bool {
    &&& least_height(rows) <= space.room()
    &&& exists|i: int| only_grows(rows, i)
}

/// The height of the row at `i` of rows that fit: what it asks for, and for the
/// one that may grow also what is left.
pub open spec fn row_height(space: Area, rows: Seq<Row>, i: int) -> int {
    if rows[i].grows() {
        rows[i].least() + (space.room() - least_height(rows))
    } else {
        rows[i].least() as int
    }
}

/// There is no room for `rows` in `space`, and the one at `m` is the one that
/// may grow.
pub open spec fn cramped(space: Area, rows: Seq<Row>, m: int) -> bool {
    only_grows(rows, m) && least_height(rows) > space.room()
}

/// The smaller of two numbers.
pub open spec fn smaller(a: int, b: int) -> int {
    if a <= b {
        a
    } else {
        b
    }
}

/// The areas span the width of `space`.
pub open spec fn as_wide(space: Area, areas: Seq<Area>) -> bool {
    forall|i: int|
        0 <= i < areas.len() ==> (#[trigger] areas[i]).x == space.x && areas[i].width == space.width
}

/// The areas stand one below the other without gaps, from the first line of
/// `space` on, and none reaches below its last.
pub open spec fn stacked(space: Area, areas: Seq<Area>) -> bool {
    &&& areas.len() > 0 ==> areas[0].y == space.y
    &&& forall|i: int|
        0 < i < areas.len() ==> (#[trigger] areas[i]).y == areas[i - 1].y + areas[i - 1].height
    &&& forall|i: int|
        0 <= i < areas.len() ==> (#[trigger] areas[i]).y + areas[i].height <= space.bottom()
}

/// `ratatui::layout::Layout::split`, with a vertical layout of the given margin
/// and of one `Constraint` per row. It gives one rectangle per constraint. They
/// are as wide as what the margin leaves of the area, and stand one below the
/// other without gaps, from its first line on and within it.
///
/// Where the rows fit and exactly one may grow, that one takes what is left and
/// the others are as high as they ask. Where they do not fit and exactly one may
/// grow, they reach down to the last line, no other is higher than it asks, and
/// the one that may grow comes first: it is as high as it asks, or as all there
/// is. (The crate takes its least height for a signed number of 16 bits; beyond
/// that nothing is said of it.) How the others then share the rest is not said:
/// the crate calls it indeterminate, and it depends on the order in which hash
/// maps are walked.
///
/// The crate weighs the rows' wishes against the gaps by a weighted sum, in which
/// very many rows could outweigh a gap: more than a few rows are left out, and so
/// are margins of which the double exceeds a coordinate.
#[verifier::external_body]
fn split_rows(area: Area, margin: u16, rows: &Vec<Row>) -> (r: Vec<Area>)
    requires
        margin < 0x8000,
        rows@.len() <= 16,
    ensures
        r@.len() == rows@.len(),
        as_wide(area.inner(margin as nat), r@),
        stacked(area.inner(margin as nat), r@),
        rows_fit(area.inner(margin as nat), rows@) ==> forall|i: int|
            0 <= i < r@.len() ==> (#[trigger] r@[i]).height == row_height(
                area.inner(margin as nat),
                rows@,
                i,
            ),
        forall|m: int| #[trigger]
            cramped(area.inner(margin as nat), rows@, m) ==> {
                &&& rows@[m].least() < 0x8000 ==> r@[m].height == smaller(
                    rows@[m].least() as int,
                    area.inner(margin as nat).room(),
                )
                &&& forall|i: int|
                    0 <= i < r@.len() && i != m ==> (#[trigger] r@[i]).height <= rows@[i].least()
                &&& r@.last().y + r@.last().height == area.inner(margin as nat).bottom()
            },
{
    let constraints: Vec<ratatui::layout::Constraint> = rows.iter().map(
        |row| match row {
            Row::Length(n) => ratatui::layout::Constraint::Length(*n),
            Row::Min(n) => ratatui::layout::Constraint::Min(*n),
        },
    ).collect();
    let Area { x, y, width, height } = area;
    ratatui::layout::Layout::default()
        .direction(ratatui::layout::Direction::Vertical)
        .margin(margin)
        .constraints(constraints)
        .split(ratatui::layout::Rect { x, y, width, height })
        .iter().map(|r| Area { x: r.x, y: r.y, width: r.width, height: r.height }).collect()
}

/// The rows of the console.
#[derive(Clone, Copy, Debug, PartialEq, Eq, Structural)]
pub struct Rows {
    pub header: Area,
    pub status: Area,
    pub output: Area,
    pub input: Area,
    pub bar: Area,
}

impl Rows {
    /// The rows from the top down.
    pub open spec fn in_order(self) -> Seq<Area> {
        seq![self.header, self.status, self.output, self.input, self.bar]
    }
}

/// There is room for all rows on the terminal.
pub open spec fn roomy(area: Area) -> bool {
    area.inner(1).room() >= 15
}

/// The rows are those of a terminal of this size. They are as wide as the
/// terminal without its outermost columns, and stand one below the other from
/// its second line on. Where there is room the log takes what is left by the
/// others. Where there is not, the rows end with the terminal's last line but
/// one, and the log takes its five lines first.
pub open spec fn laid_out(area: Area, rows: Rows) -> bool {
    let space = area.inner(1);
    &&& as_wide(space, rows.in_order())
    &&& stacked(space, rows.in_order())
    &&& if roomy(area) {
        &&& rows.header.height == 3
        &&& rows.status.height == 3
        &&& rows.output.height == space.room() - 10
        &&& rows.input.height == 3
        &&& rows.bar.height == 1
    } else {
        &&& rows.header.height <= 3
        &&& rows.status.height <= 3
        &&& rows.output.height == smaller(5, space.room())
        &&& rows.input.height <= 3
        &&& rows.bar.height <= 1
        &&& rows.bar.y + rows.bar.height == space.bottom()
    }
}

/// The rows of the console on a terminal of the given size.
pub fn screen_rows(area: Area) -> (r: Rows)
    ensures
        laid_out(area, r),
{
    let rows = vec![Row::Length(3), Row::Length(3), Row::Min(5), Row::Length(3), Row::Length(1)];
    let split = split_rows(area, 1, &rows);
    let r = Rows {
        header: split[0],
        status: split[1],
        output: split[2],
        input: split[3],
        bar: split[4],
    };
    proof {
        let want = rows@;
        reveal_with_fuel(least_height, 6);
        assert(want.drop_last() =~= want.take(4));
        assert(want.take(4).drop_last() =~= want.take(3));
        assert(want.take(3).drop_last() =~= want.take(2));
        assert(want.take(2).drop_last() =~= want.take(1));
        assert(want.take(1).drop_last() =~= want.take(0));
        assert(least_height(want) == 15);
        assert(only_grows(want, 2));
        assert(r.in_order() =~= split@);
        if !roomy(area) {
            assert(cramped(area.inner(1), want, 2));
        }
    }
    r
}

} // verus!
