//! Where the five panels of the dashboard stand on the screen. The split of
//! an area by percentages is ratatui's constraint solver.
use vstd::prelude::*;

verus! {

/// A rectangle of terminal cells.
#[derive(Debug, Clone, Copy, PartialEq, Eq, Structural)]
pub struct Area {
    pub x: u16,
    pub y: u16,
    pub width: u16,
    pub height: u16,
}

/// Along which axis an area is split.
#[derive(Debug, Clone, Copy, PartialEq, Eq, Structural)]
pub enum SplitDirection {
    Horizontal,
    Vertical,
}

/// An area as a tuple `(x, y, width, height)`.
pub open spec fn area_tuple(a: Area) -> (u16, u16, u16, u16) {
    (a.x, a.y, a.width, a.height)
}

/// The sum of a list of percentages.
pub open spec fn percent_total(percentages: Seq<u16>) -> int
    decreases percentages.len(),
{
    if percentages.len() == 0 {
        0
    } else {
        percent_total(percentages.drop_last()) + percentages.last()
    }
}

/// The areas into which ratatui's `Layout::split` divides `area` along
/// `direction` for percentage constraints that add up to 100.
pub uninterp spec fn layout_split(
    area: (u16, u16, u16, u16),
    direction: SplitDirection,
    percentages: Seq<u16>,
) -> Seq<(u16, u16, u16, u16)>;

/// Splits `area` with ratatui's `Layout::split` (default margin, spacing and
/// flex), one percentage constraint per entry of `percentages`.
///
/// The solver keeps its rows in randomly seeded hash maps and picks the first
/// match when it pivots, so where several splits are equally good the one it
/// returns is left to chance. When the percentages add up to 100 every
/// constraint can be met exactly and the optimum is unique; the contract is
/// limited to those inputs. It claims that the result is then `layout_split`
/// of the arguments, and that it holds one area per constraint, which the
/// solver's source shows (one segment per constraint).
#[verifier::external_body]
fn split_by_percentages(area: Area, direction: SplitDirection, percentages: &Vec<u16>) -> (r: Vec<Area>)
    requires
        percent_total(percentages@) == 100,
    ensures
        r@.len() == percentages@.len(),
        r@.map_values(|a: Area| area_tuple(a)) == layout_split(area_tuple(area), direction, percentages@),
{
    let direction = match direction {
        SplitDirection::Horizontal => ratatui::layout::Direction::Horizontal,
        SplitDirection::Vertical => ratatui::layout::Direction::Vertical,
    };
    let constraints: Vec<ratatui::layout::Constraint> =
        percentages.iter().map(|p| ratatui::layout::Constraint::Percentage(*p)).collect();
    let rect = ratatui::layout::Rect { x: area.x, y: area.y, width: area.width, height: area.height };
    let rects = ratatui::layout::Layout::default().direction(direction).constraints(constraints).split(rect);
    rects.iter().map(|r| Area { x: r.x, y: r.y, width: r.width, height: r.height }).collect()
}

/// Where each panel of the dashboard stands.
pub struct DashboardAreas {
    pub state: Area,
    pub running: Area,
    pub available: Area,
    pub waiting: Area,
    pub done: Area,
}

/// The dashboard's layout: the screen split into an upper and a lower half;
/// the upper half split 25/75 into the state and the running scripts; the
/// lower half split 34/33/33 into available, waiting and finished scripts.
/// The result lists state, running, available, waiting, done.
pub open spec fn dashboard_spec(area: (u16, u16, u16, u16)) -> Seq<(u16, u16, u16, u16)> {
    let outer = layout_split(area, SplitDirection::Vertical, seq![50u16, 50u16]);
    let top = layout_split(outer[0], SplitDirection::Horizontal, seq![25u16, 75u16]);
    let lower = layout_split(outer[1], SplitDirection::Horizontal, seq![34u16, 33u16, 33u16]);
    seq![top[0], top[1], lower[0], lower[1], lower[2]]
}

impl DashboardAreas {
    pub open spec fn as_seq(self) -> Seq<(u16, u16, u16, u16)> {
        seq![
            area_tuple(self.state),
            area_tuple(self.running),
            area_tuple(self.available),
            area_tuple(self.waiting),
            area_tuple(self.done),
        ]
    }
}

/// Lays the dashboard out on `area`.
pub fn dashboard_layout(area: Area) -> (r: DashboardAreas)
    ensures
        r.as_seq() == dashboard_spec(area_tuple(area)),
{
    let halves = vec![50u16, 50u16];
    proof {
        assert(halves@ =~= seq![50u16, 50u16]);
        assert(halves@.drop_last() =~= seq![50u16]);
        assert(halves@.drop_last().drop_last() =~= Seq::<u16>::empty());
        assert(percent_total(halves@.drop_last().drop_last()) == 0);
        assert(percent_total(halves@.drop_last()) == 50);
        assert(percent_total(halves@) == 100);
    }
    let outer = split_by_percentages(area, SplitDirection::Vertical, &halves);
    let top_shares = vec![25u16, 75u16];
    proof {
        assert(top_shares@.drop_last() =~= seq![25u16]);
        assert(top_shares@.drop_last().drop_last() =~= Seq::<u16>::empty());
        assert(percent_total(top_shares@.drop_last().drop_last()) == 0);
        assert(percent_total(top_shares@.drop_last()) == 25);
        assert(percent_total(top_shares@) == 100);
    }
    let top = split_by_percentages(outer[0], SplitDirection::Horizontal, &top_shares);
    let lower_shares = vec![34u16, 33u16, 33u16];
    proof {
        assert(lower_shares@.drop_last() =~= seq![34u16, 33u16]);
        assert(lower_shares@.drop_last().drop_last() =~= seq![34u16]);
        assert(lower_shares@.drop_last().drop_last().drop_last() =~= Seq::<u16>::empty());
        assert(percent_total(lower_shares@.drop_last().drop_last().drop_last()) == 0);
        assert(percent_total(lower_shares@.drop_last().drop_last()) == 34);
        assert(percent_total(lower_shares@.drop_last()) == 67);
        assert(percent_total(lower_shares@) == 100);
    }
    let lower = split_by_percentages(outer[1], SplitDirection::Horizontal, &lower_shares);
    proof {
        assert(halves@ =~= seq![50u16, 50u16]);
        assert(top_shares@ =~= seq![25u16, 75u16]);
        assert(lower_shares@ =~= seq![34u16, 33u16, 33u16]);
        let o = outer@.map_values(|a: Area| area_tuple(a));
        assert(o[0] == area_tuple(outer@[0]));
        assert(o[1] == area_tuple(outer@[1]));
        let t = top@.map_values(|a: Area| area_tuple(a));
        assert(t[0] == area_tuple(top@[0]));
        assert(t[1] == area_tuple(top@[1]));
        let l = lower@.map_values(|a: Area| area_tuple(a));
        assert(l[0] == area_tuple(lower@[0]));
        assert(l[1] == area_tuple(lower@[1]));
        assert(l[2] == area_tuple(lower@[2]));
    }
    let r = DashboardAreas { state: top[0], running: top[1], available: lower[0], waiting: lower[1], done: lower[2] };
    assert(r.as_seq() =~= dashboard_spec(area_tuple(area)));
    r
}

} // verus!
