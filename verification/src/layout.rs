//! Screen geometry: the layout of the interface and hit testing of mouse
//! clicks against it.  Areas are split by ratatui's layout solver; what
//! depends on where the solver places them takes the areas as arguments.

use vstd::prelude::*;
use ratatui::layout::{Constraint, Direction, Layout, Rect};
use ratatui::widgets::{Block, Borders};

verus! {

/// A rectangle of terminal cells, as ratatui's `Rect`.
#[derive(Clone, Copy, Debug, PartialEq, Eq, Structural)]
pub struct Area {
    pub x: u16,
    pub y: u16,
    pub width: u16,
    pub height: u16,
}

/// The larger of a sum and `u16::MAX`'s clamp: `u16::saturating_add`.
pub open spec fn sat_add(a: u16, b: u16) -> u16 {
    if a + b > u16::MAX { u16::MAX } else { (a + b) as u16 }
}

/// `u16::saturating_sub`.
pub open spec fn sat_sub(a: u16, b: u16) -> u16 {
    if a < b { 0 } else { (a - b) as u16 }
}

pub open spec fn min_u16(a: u16, b: u16) -> u16 {
    if a <= b { a } else { b }
}

impl Area {
    /// `Rect::new`: a rectangle whose width and height are clamped so that
    /// its right and bottom edges stay within `u16`.
    pub fn new(x: u16, y: u16, width: u16, height: u16) -> (r: Area)
        ensures
            r.x == x,
            r.y == y,
            r.width == (if width > u16::MAX - x { (u16::MAX - x) as u16 } else { width }),
            r.height == (if height > u16::MAX - y { (u16::MAX - y) as u16 } else { height }),
    {
        let max_width = u16::MAX - x;
        let max_height = u16::MAX - y;
        Area {
            x,
            y,
            width: if width > max_width { max_width } else { width },
            height: if height > max_height { max_height } else { height },
        }
    }

    /// The first column right of the area: `Rect::right`.
    pub open spec fn right_spec(self) -> u16 {
        sat_add(self.x, self.width)
    }

    /// The first row below the area: `Rect::bottom`.
    pub open spec fn bottom_spec(self) -> u16 {
        sat_add(self.y, self.height)
    }

    pub fn right(&self) -> (r: u16)
        ensures
            r == self.right_spec(),
    {
        self.x.saturating_add(self.width)
    }

    pub fn bottom(&self) -> (r: u16)
        ensures
            r == self.bottom_spec(),
    {
        self.y.saturating_add(self.height)
    }
}

/// A size constraint of one layout segment, as ratatui's `Constraint`.
#[derive(Clone, Copy, Debug, PartialEq, Eq, Structural)]
pub enum Extent {
    Length(u16),
    Min(u16),
    Percentage(u16),
}

/// The direction in which a layout splits an area.
#[derive(Clone, Copy, Debug, PartialEq, Eq, Structural)]
pub enum Split {
    Horizontal,
    Vertical,
}

/// What holds of every area that a split in `direction` of `area` gives:
/// across the direction of the split, it spans the whole of `area`.
pub open spec fn spans_across(direction: Split, area: Area, part: Area) -> bool {
    match direction {
        Split::Horizontal => part.y == area.y && part.height == area.height,
        Split::Vertical => part.x == area.x && part.width == area.width,
    }
}

/// Along the direction of the split, a part starts and ends inside `area`.
pub open spec fn lies_along(direction: Split, area: Area, part: Area) -> bool {
    match direction {
        Split::Horizontal => area.x <= part.x && part.x + part.width <= area.right_spec(),
        Split::Vertical => area.y <= part.y && part.y + part.height <= area.bottom_spec(),
    }
}

/// Whether `parts` are areas that ratatui's layout solver gives when it
/// splits `area` in `direction` by `constraints`.  This is a relation, not
/// a function: the solver may give other parts for the same inputs.
pub uninterp spec fn solver_placement(direction: Split, constraints: Seq<Extent>, area: Area, parts: Seq<Area>) -> bool;

/// What a split of `area` in `direction` by `constraints` gives: parts the
/// solver placed for exactly these inputs, one per constraint, each
/// spanning `area` across the split and lying inside it along the split.
pub open spec fn split_outcome(direction: Split, constraints: Seq<Extent>, area: Area, parts: Seq<Area>) -> bool {
    &&& solver_placement(direction, constraints, area, parts)
    &&& parts.len() == constraints.len()
    &&& forall|i: int| 0 <= i < parts.len() ==> spans_across(direction, area, #[trigger] parts[i])
    &&& forall|i: int| 0 <= i < parts.len() ==> lies_along(direction, area, #[trigger] parts[i])
}

/// `Layout::default().direction(..).constraints(..).split(area)`: one area
/// per constraint, as the layout solver places them.
///
/// ratatui builds one rectangle per constraint, and (with the default zero
/// margin) gives each the position and size of `area` across the direction
/// of the split.  Along the split, ratatui's REQUIRED constraints keep every
/// start and end between the area's start and end, and each segment's end
/// at or after its start (a part's size is the end minus the start,
/// saturating); rounding to whole cells keeps those bounds.  Where exactly
/// the parts lie is what the cassowary solver chose, which its
/// documentation allows to vary, so it is only related to the inputs by
/// `solver_placement`.  That the parts come in order without overlapping
/// is not stated: the gaps between them are weighted constraints, not
/// required ones.
#[verifier::external_body]
fn split_area(direction: Split, constraints: &Vec<Extent>, area: Area) -> (r: Vec<Area>)
    ensures
        solver_placement(direction, constraints@, area, r@),
        r.len() == constraints.len(),
        forall|i: int| 0 <= i < r.len() ==> spans_across(direction, area, #[trigger] r@[i]),
        forall|i: int| 0 <= i < r.len() ==> lies_along(direction, area, #[trigger] r@[i]),
{
    let direction = match direction {
        Split::Horizontal => Direction::Horizontal,
        Split::Vertical => Direction::Vertical,
    };
    let constraints = constraints.iter().map(|c| match *c {
        Extent::Length(n) => Constraint::Length(n),
        Extent::Min(n) => Constraint::Min(n),
        Extent::Percentage(n) => Constraint::Percentage(n),
    });
    let rect = Rect { x: area.x, y: area.y, width: area.width, height: area.height };
    let layout = Layout::default().direction(direction).constraints(constraints);
    layout.split(rect).iter().map(|r| Area { x: r.x, y: r.y, width: r.width, height: r.height }).collect()
}

/// Splits an area, giving the outcome with every property it has.
fn split(direction: Split, constraints: &Vec<Extent>, area: Area) -> (r: Vec<Area>)
    ensures
        split_outcome(direction, constraints@, area, r@),
{
    split_area(direction, constraints, area)
}

/// The inside of an area framed by a border on all four sides, as
/// `Block::inner` computes it for a block with `Borders::ALL`, no title and
/// no padding.
pub open spec fn bordered_inner_spec(a: Area) -> Area {
    Area {
        x: min_u16(sat_add(a.x, 1), a.right_spec()),
        y: min_u16(sat_add(a.y, 1), a.bottom_spec()),
        width: sat_sub(sat_sub(a.width, 1), 1),
        height: sat_sub(sat_sub(a.height, 1), 1),
    }
}

/// `Block::default().borders(Borders::ALL).inner(area)`.  With all borders,
/// no title and no padding, ratatui's source moves the left and top edges in
/// by one (never past the right and bottom edges) and takes one cell from
/// each side, saturating.
#[verifier::external_body]
fn bordered_inner(area: Area) -> (r: Area)
    ensures
        r == bordered_inner_spec(area),
{
    let rect = Rect { x: area.x, y: area.y, width: area.width, height: area.height };
    let block = Block::default().borders(Borders::ALL);
    let inner = block.inner(rect);
    Area { x: inner.x, y: inner.y, width: inner.width, height: inner.height }
}

/// The constraints of the rows of the whole screen: header (3 rows), body
/// (at least 8), footer (2).
pub open spec fn screen_row_extents_spec() -> Seq<Extent> {
    seq![Extent::Length(3), Extent::Min(8), Extent::Length(2)]
}

/// The constraints of the rows of the whole screen.
pub fn screen_row_extents() -> (r: Vec<Extent>)
    ensures
        r@ == screen_row_extents_spec(),
{
    let r = vec![Extent::Length(3), Extent::Min(8), Extent::Length(2)];
    proof {
        assert(r@ =~= screen_row_extents_spec());
    }
    r
}

/// The constraints of the columns of the body row: the sidebar (30
/// columns) and the content (at least 30).
pub open spec fn main_column_extents_spec() -> Seq<Extent> {
    seq![Extent::Length(30), Extent::Min(30)]
}

/// The constraints of the columns of the body row.
pub fn main_column_extents() -> (r: Vec<Extent>)
    ensures
        r@ == main_column_extents_spec(),
{
    let r = vec![Extent::Length(30), Extent::Min(30)];
    proof {
        assert(r@ =~= main_column_extents_spec());
    }
    r
}

/// The constraints of the rows of the sidebar: the views box (8 rows), the
/// actions box (9 rows) and the rest.
pub open spec fn sidebar_extents_spec() -> Seq<Extent> {
    seq![Extent::Length(8), Extent::Length(9), Extent::Min(0)]
}

/// The constraints of the rows of the sidebar.
pub fn sidebar_extents() -> (r: Vec<Extent>)
    ensures
        r@ == sidebar_extents_spec(),
{
    let r = vec![Extent::Length(8), Extent::Length(9), Extent::Min(0)];
    proof {
        assert(r@ =~= sidebar_extents_spec());
    }
    r
}

/// Splits the whole screen into header, body and footer rows.
pub fn screen_layout(area: Area) -> (r: Vec<Area>)
    ensures
        split_outcome(Split::Vertical, screen_row_extents_spec(), area, r@),
{
    let constraints = screen_row_extents();
    split(Split::Vertical, &constraints, area)
}

/// Whether `sidebar` and `content` are the columns of the body row of a
/// screen `area`: the middle row of the screen's rows, split by the
/// column constraints.
pub open spec fn main_columns_of(area: Area, sidebar: Area, content: Area) -> bool {
    exists|rows: Seq<Area>, columns: Seq<Area>|
        #![trigger split_outcome(Split::Vertical, screen_row_extents_spec(), area, rows), split_outcome(Split::Horizontal, main_column_extents_spec(), rows[1], columns)]
        split_outcome(Split::Vertical, screen_row_extents_spec(), area, rows)
            && split_outcome(Split::Horizontal, main_column_extents_spec(), rows[1], columns)
            && columns[0] == sidebar && columns[1] == content
}

/// Splits the body row of the screen into the sidebar (30 columns) and the
/// content (the rest).
pub fn main_columns(area: Area) -> (r: (Area, Area))
    ensures
        main_columns_of(area, r.0, r.1),
{
    let rows = screen_layout(area);
    let constraints = main_column_extents();
    let columns = split(Split::Horizontal, &constraints, rows[1]);
    proof {
        assert(split_outcome(Split::Vertical, screen_row_extents_spec(), area, rows@));
        assert(split_outcome(Split::Horizontal, main_column_extents_spec(), rows@[1], columns@));
    }
    (columns[0], columns[1])
}

/// Whether `views` and `actions` are the first two rows of `sidebar` split
/// by the sidebar's constraints.
pub open spec fn sidebar_rows_of(sidebar: Area, views: Area, actions: Area) -> bool {
    exists|rows: Seq<Area>|
        #![trigger split_outcome(Split::Vertical, sidebar_extents_spec(), sidebar, rows)]
        split_outcome(Split::Vertical, sidebar_extents_spec(), sidebar, rows) && rows[0] == views && rows[1] == actions
}

/// Splits the sidebar into its views box (8 rows) and actions box (9 rows).
pub fn sidebar_rows(area: Area) -> (r: (Area, Area))
    ensures
        sidebar_rows_of(area, r.0, r.1),
{
    let constraints = sidebar_extents();
    let rows = split(Split::Vertical, &constraints, area);
    proof {
        assert(split_outcome(Split::Vertical, sidebar_extents_spec(), area, rows@));
    }
    (rows[0], rows[1])
}

/// What a click in the sidebar hits: the view or the action in the row.
#[derive(Clone, Copy, Debug, PartialEq, Eq, Structural)]
pub enum SidebarHit {
    Screen(usize),
    Action(usize),
}

/// The number of views, and of actions, that the sidebar lists.
pub const SCREEN_COUNT: usize = 5;

/// The entry of a bordered list box at a row: its index among the
/// `SCREEN_COUNT` entries, when the row lies inside the border on an entry.
pub open spec fn list_row(content: Area, row: u16) -> Option<nat> {
    if content.y <= row < content.bottom_spec() && row - content.y < SCREEN_COUNT {
        Some((row - content.y) as nat)
    } else {
        None
    }
}

/// What a click at `(column, row)` hits in a sidebar whose views box and
/// actions box are the given areas: a view of the views box, else an
/// action of the actions box, else nothing.
pub open spec fn sidebar_hit_in_spec(sidebar: Area, views: Area, actions: Area, column: u16, row: u16) -> Option<SidebarHit> {
    if column < sidebar.x || column >= sidebar.right_spec() {
        None
    } else {
        match list_row(bordered_inner_spec(views), row) {
            Some(i) => Some(SidebarHit::Screen(i as usize)),
            None => match list_row(bordered_inner_spec(actions), row) {
                Some(i) => Some(SidebarHit::Action(i as usize)),
                None => None,
            },
        }
    }
}

/// Hit tests a click against the bordered views and actions boxes of a
/// sidebar.
pub fn sidebar_hit_in(sidebar: Area, views: Area, actions: Area, column: u16, row: u16) -> (r: Option<SidebarHit>)
    ensures
        r == sidebar_hit_in_spec(sidebar, views, actions, column, row),
{
    if column < sidebar.x || column >= sidebar.right() {
        return None;
    }
    let view_content = bordered_inner(views);
    if row >= view_content.y && row < view_content.bottom() {
        let index = (row - view_content.y) as usize;
        if index < SCREEN_COUNT {
            return Some(SidebarHit::Screen(index));
        }
    }
    let action_content = bordered_inner(actions);
    if row >= action_content.y && row < action_content.bottom() {
        let index = (row - action_content.y) as usize;
        if index < SCREEN_COUNT {
            return Some(SidebarHit::Action(index));
        }
    }
    None
}

/// Hit tests a click against the visible, bordered regions of the sidebar:
/// what `sidebar_hit_in` gives for the views and actions boxes that
/// `sidebar_rows` lays out.
pub fn sidebar_hit(sidebar: Area, column: u16, row: u16) -> (r: Option<SidebarHit>)
    ensures
        exists|views: Area, actions: Area|
            #![trigger sidebar_hit_in_spec(sidebar, views, actions, column, row)]
            sidebar_rows_of(sidebar, views, actions) && r == sidebar_hit_in_spec(sidebar, views, actions, column, row),
{
    let (views, actions) = sidebar_rows(sidebar);
    let r = sidebar_hit_in(sidebar, views, actions, column, row);
    proof {
        assert(r == sidebar_hit_in_spec(sidebar, views, actions, column, row));
    }
    r
}

/// Hit testing uses the visible, bordered regions: in any sidebar layout
/// the solver gives, a click inside the sidebar on the row where the views
/// box draws its `k`-th entry (the `k`-th row inside its border) hits that
/// view, and a click below the views box on the row where the actions box
/// draws its `k`-th entry hits that action.
pub proof fn law_sidebar_hits_drawn_rows(sidebar: Area, views: Area, actions: Area, column: u16, k: nat, row: u16)
    requires
        sidebar_rows_of(sidebar, views, actions),
        sidebar.x <= column < sidebar.right_spec(),
        k < SCREEN_COUNT,
    ensures
        k < bordered_inner_spec(views).height && row == bordered_inner_spec(views).y + k
            ==> sidebar_hit_in_spec(sidebar, views, actions, column, row) == Some(SidebarHit::Screen(k as usize)),
        k < bordered_inner_spec(actions).height && row == bordered_inner_spec(actions).y + k
            && row >= bordered_inner_spec(views).bottom_spec()
            ==> sidebar_hit_in_spec(sidebar, views, actions, column, row) == Some(SidebarHit::Action(k as usize)),
{
    let rows = choose|rows: Seq<Area>|
        #![trigger split_outcome(Split::Vertical, sidebar_extents_spec(), sidebar, rows)]
        split_outcome(Split::Vertical, sidebar_extents_spec(), sidebar, rows) && rows[0] == views && rows[1] == actions;
    assert(lies_along(Split::Vertical, sidebar, rows[0]));
    assert(lies_along(Split::Vertical, sidebar, rows[1]));
}

/// The index of the update shown at a row of the updates table: rows count
/// from the first one under the table's header line, inside the border.
pub open spec fn update_row_spec(content: Area, row: u16) -> Option<usize> {
    let first = sat_add(bordered_inner_spec(content).y, 1);
    if row >= first {
        Some((row - first) as usize)
    } else {
        None
    }
}

/// The update under a row of the updates table, counted from the first data
/// row.
pub fn update_row_at(content: Area, row: u16) -> (r: Option<usize>)
    ensures
        r == update_row_spec(content, row),
{
    let inner = bordered_inner(content);
    let first_data_row = inner.y.saturating_add(1);
    if row >= first_data_row {
        Some((row - first_data_row) as usize)
    } else {
        None
    }
}

/// The margin on each side of a dialog that takes `percent` percent of a
/// length: half of the rest.
pub open spec fn centering_margin(percent: u16) -> u16 {
    ((100 - percent) / 2) as u16
}

/// The constraints that centre a segment of `percent` percent: a margin,
/// the segment, and a margin again.
pub open spec fn centering_extents_spec(percent: u16) -> Seq<Extent> {
    seq![
        Extent::Percentage(centering_margin(percent)),
        Extent::Percentage(percent),
        Extent::Percentage(centering_margin(percent)),
    ]
}

/// The constraints that centre a segment of `percent` percent.
pub fn centering_extents(percent: u16) -> (r: Vec<Extent>)
    requires
        percent <= 100,
    ensures
        r@ == centering_extents_spec(percent),
{
    let margin = (100 - percent) / 2;
    let r = vec![Extent::Percentage(margin), Extent::Percentage(percent), Extent::Percentage(margin)];
    proof {
        assert(r@ =~= centering_extents_spec(percent));
    }
    r
}

/// Whether `dialog` is centred in `area` at `percent_x` by `percent_y`
/// percent: the middle column, by the centering constraints of
/// `percent_x`, of the middle row, by those of `percent_y`.
pub open spec fn centered_in(percent_x: u16, percent_y: u16, area: Area, dialog: Area) -> bool {
    exists|rows: Seq<Area>, columns: Seq<Area>|
        #![trigger split_outcome(Split::Vertical, centering_extents_spec(percent_y), area, rows), split_outcome(Split::Horizontal, centering_extents_spec(percent_x), rows[1], columns)]
        split_outcome(Split::Vertical, centering_extents_spec(percent_y), area, rows)
            && split_outcome(Split::Horizontal, centering_extents_spec(percent_x), rows[1], columns)
            && dialog == columns[1]
}

/// Centres a dialog of the given percentages of the area.
pub fn centered_rect(percent_x: u16, percent_y: u16, area: Area) -> (r: Area)
    requires
        percent_x <= 100,
        percent_y <= 100,
    ensures
        centered_in(percent_x, percent_y, area, r),
{
    let rows = centering_extents(percent_y);
    let vertical = split(Split::Vertical, &rows, area);
    let columns = centering_extents(percent_x);
    let horizontal = split(Split::Horizontal, &columns, vertical[1]);
    proof {
        assert(split_outcome(Split::Vertical, centering_extents_spec(percent_y), area, vertical@));
        assert(split_outcome(Split::Horizontal, centering_extents_spec(percent_x), vertical@[1], horizontal@));
    }
    horizontal[1]
}

/// The regions of the screen that mouse clicks are tested against.
#[derive(Clone, Copy, Debug, PartialEq, Eq, Structural)]
pub struct ScreenGeometry {
    pub sidebar: Area,
    pub views: Area,
    pub actions: Area,
    pub content: Area,
    /// Where the confirmation dialog is drawn.
    pub dialog: Area,
}

/// Lays out a screen of the given size: the sidebar and the content of the
/// body row, the views and actions boxes of the sidebar, and a dialog of 60
/// by 28 percent in the middle.
pub fn screen_geometry(area: Area) -> (r: ScreenGeometry)
    ensures
        main_columns_of(area, r.sidebar, r.content),
        sidebar_rows_of(r.sidebar, r.views, r.actions),
        centered_in(60, 28, area, r.dialog),
{
    let (sidebar, content) = main_columns(area);
    let (views, actions) = sidebar_rows(sidebar);
    ScreenGeometry { sidebar, views, actions, content, dialog: centered_rect(60, 28, area) }
}

/// The height of a list given its length, clamped to `u16`.
pub fn saturating_u16(value: usize) -> (r: u16)
    ensures
        r == (if value > u16::MAX { u16::MAX } else { value as u16 }),
{
    if value > 65535 {
        u16::MAX
    } else {
        value as u16
    }
}

} // verus!
