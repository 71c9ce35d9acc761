//! Where the messages of a chat stand on the screen, counted in lines from
//! the bottom, and which of them is selected.

use crate::display::{flat, shown_height, wrapped, wrapped_text};
use crate::message::{Message, MessageView};
use crate::views::{group_views, views};
use vstd::prelude::*;

verus! {

broadcast use group_views;

/// One message or reply as it stands in the list: its id, the number of
/// lines it takes, and the index of the message of the room that it
/// belongs to.
pub struct Row {
    pub id: String,
    pub height: usize,
    pub top: usize,
}

pub struct RowView {
    pub id: Seq<char>,
    pub height: nat,
    pub top: nat,
}

impl View for Row {
    type V = RowView;

    open spec fn view(&self) -> RowView {
        RowView { id: self.id@, height: self.height as nat, top: self.top as nat }
    }
}

/// The selected line: a row, and a line of it counted from its bottom.
#[derive(Clone, Copy, Debug, PartialEq, Eq, Structural)]
pub struct Selection {
    pub row: usize,
    pub offset: usize,
}

/// A pointer into the list that survives when the list is built anew: the
/// selected message, the selected line within it, and how far the line was
/// from the bottom of the window.
pub struct Bookmark {
    pub message_id: String,
    pub offset: usize,
    pub window_offset: usize,
}

pub struct BookmarkView {
    pub message_id: Seq<char>,
    pub offset: nat,
    pub window_offset: nat,
}

impl View for Bookmark {
    type V = BookmarkView;

    open spec fn view(&self) -> BookmarkView {
        BookmarkView {
            message_id: self.message_id@,
            offset: self.offset as nat,
            window_offset: self.window_offset as nat,
        }
    }
}

/// The row of the message `m`, shown at `width`, under the message `top`
/// of the room.
pub open spec fn row_for(m: MessageView, width: nat, reply: bool, top: nat) -> RowView {
    RowView {
        id: m.id,
        height: shown_height(
            wrapped(wrapped_text(m, reply), width, Seq::empty(), Seq::empty()).len(),
            m.receipts.len(),
            m.reactions.len(),
        ),
        top,
    }
}

/// The width that is left for the replies to a message of width `width`.
pub open spec fn narrower(width: nat) -> nat {
    if width >= 2 {
        (width - 2) as nat
    } else {
        0
    }
}

/// The rows of a message and of what is below it, from the top down: the
/// message, then each reply with its own replies, two columns narrower.
pub open spec fn rows_down(m: MessageView, width: nat, reply: bool, top: nat) -> Seq<RowView>
    decreases m, 0nat,
{
    seq![row_for(m, width, reply, top)] + rows_down_all(m.replies, narrower(width), top, m.replies.len())
}

/// The rows of the first `n` replies of a list, from the top down.
pub open spec fn rows_down_all(rs: Seq<MessageView>, width: nat, top: nat, n: nat) -> Seq<RowView>
    decreases rs, n,
{
    if n == 0 || n > rs.len() {
        Seq::empty()
    } else {
        rows_down_all(rs, width, top, (n - 1) as nat) + rows_down(rs[n - 1], width, true, top)
    }
}

/// The rows of one message of the room, from the bottom up: the message is
/// the topmost, so the rows start with its last reply and end with the
/// message itself.
pub open spec fn rows_for(m: MessageView, width: nat, top: nat) -> Seq<RowView> {
    rows_down(m, width, false, top).reverse()
}

/// The rows of the first `n` messages of the list `ms`, from the bottom up.
pub open spec fn rows_of(ms: Seq<MessageView>, width: nat, n: nat) -> Seq<RowView>
    decreases n,
{
    if n == 0 || n > ms.len() {
        Seq::empty()
    } else {
        rows_of(ms, width, (n - 1) as nat) + rows_for(ms[n - 1], width, (n - 1) as nat)
    }
}

/// Every row has a line to select below its blank top line, and no row is
/// higher than a message can be.
pub open spec fn rows_ok(rows: Seq<RowView>) -> bool {
    forall|k: int| 0 <= k < rows.len() ==> 2 <= (#[trigger] rows[k]).height <= 19
}

/// The rows of a list of messages have the heights that `rows_ok` asks for.
pub proof fn lemma_rows_of_ok(ms: Seq<MessageView>, width: nat, n: nat)
    ensures
        rows_ok(rows_of(ms, width, n)),
    decreases n,
{
    if n > 0 && n <= ms.len() {
        lemma_rows_of_ok(ms, width, (n - 1) as nat);
        lemma_rows_down_ok(ms[n - 1], width, false, (n - 1) as nat);
    }
}

proof fn lemma_rows_down_ok(m: MessageView, width: nat, reply: bool, top: nat)
    ensures
        rows_ok(rows_down(m, width, reply, top)),
    decreases m, 0nat,
{
    lemma_rows_down_all_ok(m.replies, narrower(width), top, m.replies.len());
}

proof fn lemma_rows_down_all_ok(rs: Seq<MessageView>, width: nat, top: nat, n: nat)
    ensures
        rows_ok(rows_down_all(rs, width, top, n)),
    decreases rs, n,
{
    if n > 0 && n <= rs.len() {
        lemma_rows_down_all_ok(rs, width, top, (n - 1) as nat);
        lemma_rows_down_ok(rs[n - 1], width, true, top);
    }
}

/// The rows of a message stand in the order of `flat`, one for each
/// message.
pub proof fn lemma_rows_down_flat(m: MessageView, width: nat, reply: bool, top: nat)
    ensures
        rows_down(m, width, reply, top).len() == flat(m).len(),
        forall|k: int|
            0 <= k < flat(m).len() ==> (#[trigger] rows_down(m, width, reply, top)[k]).id == flat(
                m,
            )[k].id,
    decreases m, 0nat,
{
    lemma_rows_down_all_flat(m.replies, narrower(width), top, m.replies.len());
}

proof fn lemma_rows_down_all_flat(rs: Seq<MessageView>, width: nat, top: nat, n: nat)
    requires
        n <= rs.len(),
    ensures
        rows_down_all(rs, width, top, n).len() == crate::display::flat_all(rs, n).len(),
        forall|k: int|
            0 <= k < crate::display::flat_all(rs, n).len() ==> (#[trigger] rows_down_all(
                rs,
                width,
                top,
                n,
            )[k]).id == crate::display::flat_all(rs, n)[k].id,
    decreases rs, n,
{
    if n > 0 {
        lemma_rows_down_all_flat(rs, width, top, (n - 1) as nat);
        lemma_rows_down_flat(rs[n - 1], width, true, top);
    }
}

/// Whether `s` selects a line of the list: a line of a row that is not the
/// blank line on top of it. In an empty list the selection stands at zero.
pub open spec fn selectable(rows: Seq<RowView>, s: Selection) -> bool {
    if rows.len() == 0 {
        s.row == 0 && s.offset == 0
    } else {
        s.row < rows.len() && s.offset + 1 < rows[s.row as int].height
    }
}

/// The selection one line up: the next line of the row, or the lowest line
/// of the row above. On the topmost line it stays.
pub open spec fn moved_up(rows: Seq<RowView>, s: Selection) -> Selection {
    if rows.len() == 0 {
        s
    } else if s.offset + 2 < rows[s.row as int].height {
        Selection { row: s.row, offset: (s.offset + 1) as usize }
    } else if s.row + 1 < rows.len() {
        Selection { row: (s.row + 1) as usize, offset: 0 }
    } else {
        s
    }
}

/// The selection one line down: the line below in the row, or the highest
/// line of the row below that can be selected. On the lowest line it stays.
pub open spec fn moved_down(rows: Seq<RowView>, s: Selection) -> Selection {
    if rows.len() == 0 {
        s
    } else if s.offset > 0 {
        Selection { row: s.row, offset: (s.offset - 1) as usize }
    } else if s.row > 0 {
        Selection { row: (s.row - 1) as usize, offset: (rows[s.row - 1].height - 2) as usize }
    } else {
        s
    }
}

/// The selection after `n` steps up.
pub open spec fn moved_up_by(rows: Seq<RowView>, s: Selection, n: nat) -> Selection
    decreases n,
{
    if n == 0 {
        s
    } else {
        moved_up(rows, moved_up_by(rows, s, (n - 1) as nat))
    }
}

/// The selection after `n` steps down.
pub open spec fn moved_down_by(rows: Seq<RowView>, s: Selection, n: nat) -> Selection
    decreases n,
{
    if n == 0 {
        s
    } else {
        moved_down(rows, moved_down_by(rows, s, (n - 1) as nat))
    }
}

/// Whether a row of `rows` shows the message `id`.
pub open spec fn shows(rows: Seq<RowView>, id: Seq<char>) -> bool {
    exists|k: int| 0 <= k < rows.len() && (#[trigger] rows[k]).id == id
}

/// Whether `rows[k]` is the lowest row that shows the message `id`.
pub open spec fn lowest(rows: Seq<RowView>, id: Seq<char>, k: int) -> bool {
    &&& 0 <= k < rows.len()
    &&& rows[k].id == id
    &&& forall|j: int| 0 <= j < k ==> (#[trigger] rows[j]).id != id
}

/// The number of lines of the rows from `k` on.
pub open spec fn lines_from(rows: Seq<RowView>, k: int) -> nat
    decreases rows.len() - k,
{
    if 0 <= k < rows.len() {
        rows[k].height + lines_from(rows, k + 1)
    } else {
        0
    }
}

/// The number of lines of the rows below `k`.
pub open spec fn lines_below(rows: Seq<RowView>, k: int) -> nat
    decreases k,
{
    if 0 < k <= rows.len() {
        lines_below(rows, k - 1) + rows[k - 1].height
    } else {
        0
    }
}

/// The number of lines above the selected line, up to the top of the list.
pub open spec fn lines_above(rows: Seq<RowView>, s: Selection) -> nat {
    if selectable(rows, s) && rows.len() > 0 {
        (rows[s.row as int].height - 1 - s.offset) as nat + lines_from(rows, s.row + 1)
    } else {
        0
    }
}

/// The line that is `line` lines above the bottom of the row `k`, if it can
/// be selected; the nearest line below it that can, if not. A line above
/// the list gives the topmost line.
pub open spec fn at_line(rows: Seq<RowView>, k: int, line: nat) -> Selection
    decreases rows.len() - k,
{
    if rows.len() == 0 || k < 0 || k >= rows.len() {
        Selection { row: 0, offset: 0 }
    } else if line + 1 < rows[k].height {
        Selection { row: k as usize, offset: line as usize }
    } else if line < rows[k].height || k + 1 >= rows.len() {
        Selection { row: k as usize, offset: (rows[k].height - 2) as usize }
    } else {
        at_line(rows, k + 1, (line - rows[k].height) as nat)
    }
}

/// The selection that a bookmark stands for in a list: the line of the
/// bookmark in the lowest row that shows its message, as far as the row has
/// it. Where no row shows the message, the line as far from the bottom of
/// the list as the bookmark was from the bottom of its window.
pub open spec fn resolved(rows: Seq<RowView>, b: BookmarkView) -> Selection {
    if shows(rows, b.message_id) {
        let k = choose|k: int| lowest(rows, b.message_id, k);
        Selection {
            row: k as usize,
            offset: if b.offset + 1 < rows[k].height {
                b.offset as usize
            } else {
                (rows[k].height - 2) as usize
            },
        }
    } else {
        at_line(rows, 0, b.window_offset)
    }
}

/// A bookmark that is resolved in a list with rows selects a line of it;
/// and where a row shows the message of the bookmark, the selection stands
/// on that message.
pub proof fn lemma_resolved(rows: Seq<RowView>, b: BookmarkView)
    requires
        rows_ok(rows),
        rows.len() <= usize::MAX,
    ensures
        selectable(rows, resolved(rows, b)),
        shows(rows, b.message_id) ==> rows[resolved(rows, b).row as int].id == b.message_id,
{
    if shows(rows, b.message_id) {
        let w = choose|w: int| 0 <= w < rows.len() && (#[trigger] rows[w]).id == b.message_id;
        lemma_lowest_exists(rows, b.message_id, w);
        let k = choose|k: int| lowest(rows, b.message_id, k);
        assert(rows[k].height >= 2);
    } else {
        lemma_at_line(rows, 0, b.window_offset);
    }
}

/// An id that some row bears is borne by a first row.
pub proof fn lemma_lowest_exists(rows: Seq<RowView>, id: Seq<char>, w: int)
    requires
        0 <= w < rows.len(),
        rows[w].id == id,
    ensures
        exists|k: int| lowest(rows, id, k),
    decreases w,
{
    if exists|j: int| 0 <= j < w && (#[trigger] rows[j]).id == id {
        let j = choose|j: int| 0 <= j < w && (#[trigger] rows[j]).id == id;
        lemma_lowest_exists(rows, id, j);
    } else {
        assert(lowest(rows, id, w));
    }
}

/// The line found by counting down from the top of a row can be selected.
pub proof fn lemma_at_line(rows: Seq<RowView>, k: int, line: nat)
    requires
        rows_ok(rows),
        rows.len() <= usize::MAX,
        0 <= k,
        k < rows.len() || rows.len() == 0,
    ensures
        selectable(rows, at_line(rows, k, line)),
    decreases rows.len() - k,
{
    if rows.len() > 0 {
        assert(rows[k].height >= 2);
        if !(line + 1 < rows[k].height) && !(line < rows[k].height || k + 1 >= rows.len()) {
            lemma_at_line(rows, k + 1, (line - rows[k].height) as nat);
        }
    }
}

/// Moving keeps the selection on a line that can be selected.
pub proof fn lemma_moves(rows: Seq<RowView>, s: Selection)
    requires
        rows_ok(rows),
        selectable(rows, s),
    ensures
        selectable(rows, moved_up(rows, s)),
        selectable(rows, moved_down(rows, s)),
{
    if rows.len() > 0 {
        assert(rows[s.row as int].height >= 2);
        if s.row + 1 < rows.len() {
            assert(rows[s.row + 1].height >= 2);
        }
        if s.row > 0 {
            assert(rows[s.row - 1].height >= 2);
        }
    }
}

/// The window of messages that is drawn: at most a hundred messages of the
/// room on each side of the one that holds the selected row.
pub open spec fn window(rows: Seq<RowView>, s: Selection, count: nat) -> (nat, nat) {
    if rows.len() == 0 || s.row >= rows.len() {
        (0, if count < 201 {
            count
        } else {
            201
        })
    } else {
        let top = rows[s.row as int].top;
        let lo: nat = if top >= 100 {
            (top - 100) as nat
        } else {
            0
        };
        let hi: nat = if top + 101 < count {
            top + 101
        } else {
            count
        };
        (lo, hi)
    }
}

/// The window holds the selected message and at most 201 messages.
pub proof fn lemma_window(rows: Seq<RowView>, s: Selection, count: nat)
    requires
        s.row < rows.len(),
        rows[s.row as int].top < count,
    ensures
        window(rows, s, count).0 <= rows[s.row as int].top < window(rows, s, count).1,
        window(rows, s, count).1 <= count,
        window(rows, s, count).1 - window(rows, s, count).0 <= 201,
{
}

/// The first row that belongs to the message `lo` of the room or to a
/// later one: the bottom of the window.
pub open spec fn first_row(rows: Seq<RowView>, lo: nat, k: int) -> int
    decreases rows.len() - k,
{
    if 0 <= k < rows.len() && rows[k].top < lo {
        first_row(rows, lo, k + 1)
    } else {
        k
    }
}

/// The number of lines from the bottom of the window to the selected line.
pub open spec fn window_line(rows: Seq<RowView>, s: Selection, lo: nat) -> nat {
    let start = first_row(rows, lo, 0);
    if start <= s.row {
        (lines_below(rows, s.row as int) - lines_below(rows, start) + s.offset) as nat
    } else {
        s.offset as nat
    }
}

/// The bookmark that stands for a selection: the message of the selected
/// row, the line within it, and the distance from the bottom of the window.
pub open spec fn captured(rows: Seq<RowView>, s: Selection, count: nat) -> BookmarkView {
    if rows.len() == 0 || s.row >= rows.len() {
        BookmarkView { message_id: Seq::empty(), offset: 0, window_offset: 0 }
    } else {
        let exact = window_line(rows, s, window(rows, s, count).0);
        BookmarkView {
            message_id: rows[s.row as int].id,
            offset: s.offset as nat,
            window_offset: if exact <= usize::MAX {
                exact
            } else {
                usize::MAX as nat
            },
        }
    }
}

/// Adds the rows of a message and of what is below it, from the top down.
fn rows_below(m: &Message, width: usize, reply: bool, top: usize, rows: &mut Vec<Row>)
    ensures
        views(final(rows)@) == views(old(rows)@) + rows_down(m@, width as nat, reply, top as nat),
    decreases m,
{
    let ghost before = views(rows@);
    proof {
        crate::message::lemma_replies_view(*m);
    }
    let height = m.height(width, reply);
    rows.push(Row { id: m.id.clone(), height, top });
    let ghost own = views(rows@);
    assert(own == before + seq![row_for(m@, width as nat, reply, top as nat)]);
    let below: usize = if width >= 2 {
        width - 2
    } else {
        0
    };
    let mut i: usize = 0;
    while i < m.replies.len()
        invariant
            i <= m.replies.len(),
            m@.replies == views(m.replies@),
            below == narrower(width as nat),
            views(rows@) == own + rows_down_all(m@.replies, below as nat, top as nat, i as nat),
        decreases m.replies.len() - i,
    {
        assert(m@.replies[i as int] == m.replies@[i as int]@);
        rows_below(&m.replies[i], below, true, top, rows);
        i += 1;
    }
}

/// The rows of a list of messages at a width: see `rows_of`.
pub fn layout(messages: &Vec<Message>, width: usize) -> (rows: Vec<Row>)
    ensures
        views(rows@) == rows_of(views(messages@), width as nat, messages@.len()),
        rows_ok(views(rows@)),
{
    let ghost ms = views(messages@);
    let mut rows: Vec<Row> = Vec::new();
    let mut i: usize = 0;
    while i < messages.len()
        invariant
            i <= messages.len(),
            ms == views(messages@),
            views(rows@) == rows_of(ms, width as nat, i as nat),
        decreases messages.len() - i,
    {
        let mut down: Vec<Row> = Vec::new();
        rows_below(&messages[i], width, false, i, &mut down);
        let ghost wanted = rows_down(ms[i as int], width as nat, false, i as nat);
        assert(views(down@) == wanted);
        let ghost before = views(rows@);
        let ghost total = wanted.len();
        while down.len() > 0
            invariant
                down.len() <= total,
                total == wanted.len(),
                views(down@) == wanted.take(down.len() as int),
                views(rows@) == before + wanted.reverse().take(total - down.len()),
            decreases down.len(),
        {
            let ghost k = down.len() as int;
            assert(views(down@)[k - 1] == wanted[k - 1]);
            let row = down.pop().unwrap();
            proof {
                let r = wanted.reverse();
                assert(r.take(total - k + 1) == r.take(total - k).push(r[total - k]));
                assert(r[total - k] == wanted[k - 1]);
            }
            rows.push(row);
        }
        proof {
            assert(wanted.reverse().take(total as int) == wanted.reverse());
        }
        i += 1;
    }
    proof {
        lemma_rows_of_ok(ms, width as nat, messages@.len());
    }
    rows
}

/// The lowest row that shows the message `id`.
pub fn find_row(rows: &Vec<Row>, id: &str) -> (found: Option<usize>)
    ensures
        found matches Some(k) ==> lowest(views(rows@), id@, k as int),
        found is None ==> !shows(views(rows@), id@),
{
    let mut k: usize = 0;
    while k < rows.len()
        invariant
            k <= rows.len(),
            forall|j: int| 0 <= j < k ==> (#[trigger] views(rows@)[j]).id != id@,
        decreases rows.len() - k,
    {
        if crate::text::same_text(rows[k].id.as_str(), id) {
            return Some(k);
        }
        k += 1;
    }
    None
}

/// One line up: see `moved_up`.
pub fn move_up(rows: &Vec<Row>, s: Selection) -> (next: Selection)
    requires
        rows_ok(views(rows@)),
        selectable(views(rows@), s),
    ensures
        next == moved_up(views(rows@), s),
        selectable(views(rows@), next),
{
    proof {
        lemma_moves(views(rows@), s);
    }
    if rows.len() == 0 {
        s
    } else if s.offset + 2 < rows[s.row].height {
        Selection { row: s.row, offset: s.offset + 1 }
    } else if s.row + 1 < rows.len() {
        Selection { row: s.row + 1, offset: 0 }
    } else {
        s
    }
}

/// One line down: see `moved_down`.
pub fn move_down(rows: &Vec<Row>, s: Selection) -> (next: Selection)
    requires
        rows_ok(views(rows@)),
        selectable(views(rows@), s),
    ensures
        next == moved_down(views(rows@), s),
        selectable(views(rows@), next),
{
    proof {
        lemma_moves(views(rows@), s);
    }
    if rows.len() == 0 {
        s
    } else if s.offset > 0 {
        Selection { row: s.row, offset: s.offset - 1 }
    } else if s.row > 0 {
        assert(views(rows@)[s.row - 1].height >= 2);
        Selection { row: s.row - 1, offset: rows[s.row - 1].height - 2 }
    } else {
        s
    }
}

/// `n` lines up.
pub fn move_up_by(rows: &Vec<Row>, s: Selection, n: usize) -> (next: Selection)
    requires
        rows_ok(views(rows@)),
        selectable(views(rows@), s),
    ensures
        next == moved_up_by(views(rows@), s, n as nat),
        selectable(views(rows@), next),
{
    let mut next = s;
    let mut i: usize = 0;
    while i < n
        invariant
            i <= n,
            rows_ok(views(rows@)),
            selectable(views(rows@), next),
            next == moved_up_by(views(rows@), s, i as nat),
        decreases n - i,
    {
        next = move_up(rows, next);
        i += 1;
    }
    next
}

/// `n` lines down.
pub fn move_down_by(rows: &Vec<Row>, s: Selection, n: usize) -> (next: Selection)
    requires
        rows_ok(views(rows@)),
        selectable(views(rows@), s),
    ensures
        next == moved_down_by(views(rows@), s, n as nat),
        selectable(views(rows@), next),
{
    let mut next = s;
    let mut i: usize = 0;
    while i < n
        invariant
            i <= n,
            rows_ok(views(rows@)),
            selectable(views(rows@), next),
            next == moved_down_by(views(rows@), s, i as nat),
        decreases n - i,
    {
        next = move_down(rows, next);
        i += 1;
    }
    next
}

/// The selection at a line above the bottom of the list: see `at_line`.
pub fn select_line(rows: &Vec<Row>, line: usize) -> (s: Selection)
    requires
        rows_ok(views(rows@)),
    ensures
        s == at_line(views(rows@), 0, line as nat),
        selectable(views(rows@), s),
{
    proof {
        assert(views(rows@).len() == rows.len());
        lemma_at_line(views(rows@), 0, line as nat);
    }
    if rows.len() == 0 {
        return Selection { row: 0, offset: 0 };
    }
    let mut k: usize = 0;
    let mut left: usize = line;
    loop
        invariant
            k < rows.len(),
            rows_ok(views(rows@)),
            at_line(views(rows@), k as int, left as nat) == at_line(views(rows@), 0, line as nat),
        decreases rows.len() - k,
    {
        let height = rows[k].height;
        assert(views(rows@)[k as int].height == height);
        assert(height >= 2);
        if left < height - 1 {
            return Selection { row: k, offset: left };
        }
        if left < height || k + 1 >= rows.len() {
            return Selection { row: k, offset: height - 2 };
        }
        left -= height;
        k += 1;
    }
}

/// The selection that a bookmark stands for: see `resolved`.
pub fn resolve(rows: &Vec<Row>, bookmark: &Bookmark) -> (s: Selection)
    requires
        rows_ok(views(rows@)),
    ensures
        s == resolved(views(rows@), bookmark@),
        selectable(views(rows@), s),
{
    proof {
        assert(views(rows@).len() == rows.len());
        lemma_resolved(views(rows@), bookmark@);
    }
    match find_row(rows, bookmark.message_id.as_str()) {
        Some(k) => {
            proof {
                let c = choose|c: int| lowest(views(rows@), bookmark@.message_id, c);
                if c < k {
                    assert(views(rows@)[c].id != bookmark@.message_id);
                }
                if k < c {
                    assert(views(rows@)[k as int].id != bookmark@.message_id);
                }
                assert(views(rows@)[k as int].height >= 2);
            }
            let height = rows[k].height;
            let offset: usize = if bookmark.offset < height - 1 {
                bookmark.offset
            } else {
                height - 2
            };
            Selection { row: k, offset }
        },
        None => select_line(rows, bookmark.window_offset),
    }
}

/// Whether fewer than a hundred lines stand above the selected line.
pub fn short_above(rows: &Vec<Row>, s: Selection) -> (short: bool)
    requires
        rows_ok(views(rows@)),
        selectable(views(rows@), s),
    ensures
        short == (lines_above(views(rows@), s) < 100),
{
    if rows.len() == 0 {
        return true;
    }
    assert(views(rows@)[s.row as int].height == rows@[s.row as int].height);
    let mut seen: usize = rows[s.row].height - 1 - s.offset;
    let mut k: usize = s.row + 1;
    while k < rows.len() && seen < 100
        invariant
            s.row < k <= rows.len(),
            rows_ok(views(rows@)),
            seen <= 119,
            lines_above(views(rows@), s) == seen + lines_from(views(rows@), k as int),
        decreases rows.len() - k,
    {
        assert(views(rows@)[k as int].height == rows@[k as int].height);
        seen += rows[k].height;
        k += 1;
    }
    seen < 100
}

/// The window of messages that is drawn: see `window`.
pub fn window_of(rows: &Vec<Row>, s: Selection, count: usize) -> (range: (usize, usize))
    ensures
        range.0 == window(views(rows@), s, count as nat).0,
        range.1 == window(views(rows@), s, count as nat).1,
{
    if rows.len() == 0 || s.row >= rows.len() {
        return (0, if count < 201 {
            count
        } else {
            201
        });
    }
    let top: usize = rows[s.row].top;
    assert(views(rows@)[s.row as int].top == top);
    let lo: usize = if top >= 100 {
        top - 100
    } else {
        0
    };
    let hi: usize = if top < count && count - top > 101 {
        top + 101
    } else {
        count
    };
    (lo, hi)
}

/// The number of lines from the bottom of the window that starts with the
/// message `lo` to the selected line, as far as the number can be held.
pub fn line_in_window(rows: &Vec<Row>, s: Selection, lo: usize) -> (line: usize)
    requires
        s.row < rows.len(),
    ensures
        line == if window_line(views(rows@), s, lo as nat) <= usize::MAX {
            window_line(views(rows@), s, lo as nat)
        } else {
            usize::MAX as nat
        },
{
    let ghost rs = views(rows@);
    let mut start: usize = 0;
    while start < rows.len() && rows[start].top < lo
        invariant
            start <= rows.len(),
            rs == views(rows@),
            first_row(rs, lo as nat, start as int) == first_row(rs, lo as nat, 0),
        decreases rows.len() - start,
    {
        assert(rs[start as int].top == rows@[start as int].top);
        start += 1;
    }
    proof {
        if start < rows.len() {
            assert(rs[start as int].top == rows@[start as int].top);
        }
    }
    if start > s.row {
        return s.offset;
    }
    let mut k: usize = start;
    let mut exact: Ghost<nat> = Ghost(0);
    let mut line: usize = 0;
    while k < s.row
        invariant
            start <= k <= s.row < rows.len(),
            rs == views(rows@),
            exact@ == lines_below(rs, k as int) - lines_below(rs, start as int),
            line == if exact@ <= usize::MAX {
                exact@
            } else {
                usize::MAX as nat
            },
        decreases s.row - k,
    {
        assert(rs[k as int].height == rows@[k as int].height);
        line = line.saturating_add(rows[k].height);
        proof {
            exact@ = exact@ + rows@[k as int].height as nat;
        }
        k += 1;
    }
    line.saturating_add(s.offset)
}

/// The bookmark that stands for a selection: see `captured`.
pub fn capture(rows: &Vec<Row>, s: Selection, count: usize) -> (bookmark: Bookmark)
    ensures
        bookmark@ == captured(views(rows@), s, count as nat),
{
    if rows.len() == 0 || s.row >= rows.len() {
        return Bookmark { message_id: String::new(), offset: 0, window_offset: 0 };
    }
    let (lo, _hi) = window_of(rows, s, count);
    let line = line_in_window(rows, s, lo);
    Bookmark { message_id: rows[s.row].id.clone(), offset: s.offset, window_offset: line }
}

} // verus!
