//! The output of a session: a buffer with a read cursor.

use crate::ansi::{strip_ansi, stripped};
use crate::text::{from_utf8_lossy, lossy_text};
use vstd::prelude::*;
use vstd::slice::*;
use vstd::string::*;

verus! {

/// How many bytes of output are kept: 1 MB.
pub const MAX_BUFFER: usize = 1_048_576;

/// What a session has put out, and how far it has been read.
#[derive(Debug)]
pub struct OutputBuffer {
    pub data: Vec<u8>,
    pub cursor: usize,
}

/// What an [`OutputBuffer`] holds.
pub struct BufferView {
    pub data: Seq<u8>,
    pub cursor: int,
}

impl View for OutputBuffer {
    type V = BufferView;

    open spec fn view(&self) -> BufferView {
        BufferView { data: self.data@, cursor: self.cursor as int }
    }
}

/// By how many bytes `len` is over the limit.
pub open spec fn excess(len: nat) -> int {
    if len > MAX_BUFFER {
        len - MAX_BUFFER
    } else {
        0
    }
}

impl BufferView {
    /// An empty buffer.
    pub open spec fn empty() -> BufferView {
        BufferView { data: Seq::empty(), cursor: 0 }
    }

    /// Whether the cursor is within the output.
    pub open spec fn wf(self) -> bool {
        0 <= self.cursor <= self.data.len()
    }

    /// The buffer with `more` at its end. The oldest bytes over the limit go,
    /// and the cursor moves along with what stays.
    pub open spec fn extended(self, more: Seq<u8>) -> BufferView {
        let all = self.data + more;
        let gone = excess(all.len());
        BufferView {
            data: all.skip(gone),
            cursor: if self.cursor < gone {
                0
            } else {
                self.cursor - gone
            },
        }
    }

    /// Where a read from `offset` begins: never before the cursor.
    pub open spec fn page_start(self, offset: int) -> int {
        if offset < self.cursor {
            self.cursor
        } else {
            offset
        }
    }

    /// Where a read of at most `limit` bytes from `offset` ends.
    pub open spec fn page_end(self, offset: int, limit: int) -> int {
        let start = self.page_start(offset);
        if start >= self.data.len() {
            start
        } else if start + limit < self.data.len() {
            start + limit
        } else {
            self.data.len() as int
        }
    }

    /// The bytes that such a read finds.
    pub open spec fn page_bytes(self, offset: int, limit: int) -> Seq<u8> {
        let start = self.page_start(offset);
        if start >= self.data.len() {
            Seq::empty()
        } else {
            self.data.subrange(start, self.page_end(offset, limit))
        }
    }

    /// The buffer after such a read: what was found is read.
    pub open spec fn after_page(self, offset: int, limit: int) -> BufferView {
        if self.page_start(offset) >= self.data.len() {
            self
        } else {
            BufferView { cursor: self.page_end(offset, limit), ..self }
        }
    }

    /// What has not been read yet.
    pub open spec fn unread(self) -> Seq<u8> {
        self.data.skip(self.cursor)
    }
}

/// The text that bytes of output are shown as.
pub open spec fn shown(bytes: Seq<u8>, strip: bool) -> Seq<char> {
    if bytes.len() == 0 {
        Seq::empty()
    } else if strip {
        stripped(lossy_text(bytes))
    } else {
        lossy_text(bytes)
    }
}

impl OutputBuffer {
    /// An empty buffer.
    pub fn new() -> (r: Self)
        ensures
            r@ == BufferView::empty(),
    {
        OutputBuffer { data: Vec::new(), cursor: 0 }
    }

    /// Adds output at the end and drops the oldest bytes over the limit.
    pub fn extend(&mut self, new_data: &[u8])
        ensures
            final(self)@ == old(self)@.extended(new_data@),
            final(self).data@.len() <= MAX_BUFFER,
            old(self)@.wf() ==> final(self)@.wf(),
    {
        self.data.extend_from_slice(new_data);
        let ghost all = old(self)@.data + new_data@;
        assert(self.data@ =~= all);
        let len: usize = self.data.len();
        if len > MAX_BUFFER {
            let gone: usize = len - MAX_BUFFER;
            self.data = self.data.split_off(gone);
            assert(self.data@ =~= all.skip(gone as int));
            self.cursor = if self.cursor < gone {
                0
            } else {
                self.cursor - gone
            };
        } else {
            assert(all.skip(0) =~= all);
        }
    }

    /// The text of at most `limit` bytes from `offset`, or from the cursor
    /// where that is further on; where the next read begins; and how many
    /// bytes there are.
    pub fn page(&self, offset: usize, limit: usize, do_strip: bool) -> (r: (String, usize, usize))
        ensures
            r.0@ == shown(self@.page_bytes(offset as int, limit as int), do_strip),
            r.1 == self@.page_end(offset as int, limit as int),
            r.2 == self.data@.len(),
    {
        let start: usize = if offset < self.cursor {
            self.cursor
        } else {
            offset
        };
        let total: usize = self.data.len();
        if start >= total {
            proof {
                reveal_strlit("");
            }
            return ("".to_owned(), start, total);
        }
        let end: usize = if limit < total - start {
            start + limit
        } else {
            total
        };
        if start == end {
            assert(self@.page_bytes(offset as int, limit as int) =~= Seq::<u8>::empty());
            proof {
                reveal_strlit("");
            }
            return ("".to_owned(), end, total);
        }
        let raw = slice_subrange(self.data.as_slice(), start, end);
        assert(raw@ =~= self@.page_bytes(offset as int, limit as int));
        let decoded = from_utf8_lossy(raw);
        let text = if do_strip {
            strip_ansi(decoded.as_str())
        } else {
            decoded
        };
        (text, end, total)
    }

    /// A page as [`OutputBuffer::page`] gives it. The cursor moves behind what
    /// was found, so that the next read finds only what is new.
    pub fn read_page(&mut self, offset: usize, limit: usize, do_strip: bool) -> (r: (
        String,
        usize,
        usize,
    ))
        ensures
            r.0@ == shown(old(self)@.page_bytes(offset as int, limit as int), do_strip),
            r.1 == old(self)@.page_end(offset as int, limit as int),
            r.2 == old(self).data@.len(),
            final(self)@ == old(self)@.after_page(offset as int, limit as int),
            old(self)@.wf() ==> final(self)@.wf(),
    {
        let page = self.page(offset, limit, do_strip);
        let start: usize = if offset < self.cursor {
            self.cursor
        } else {
            offset
        };
        if start < self.data.len() {
            self.cursor = page.1;
        }
        page
    }
}

// ---------------------------------------------------------------------------
// Laws
// ---------------------------------------------------------------------------

/// However much is put out, at most 1 MB is kept, and it is the newest.
pub proof fn newest_output_is_kept(b: BufferView, more: Seq<u8>)
    ensures
        b.extended(more).data.len() <= MAX_BUFFER,
        b.extended(more).data == (b.data + more).skip(
            (b.data + more).len() - b.extended(more).data.len(),
        ),
        b.data.len() + more.len() <= MAX_BUFFER ==> b.extended(more).data == b.data + more,
{
    let all = b.data + more;
    assert(all.skip(0) =~= all);
}

/// Adding output in two parts is adding it at once.
pub proof fn output_adds_up(b: BufferView, first: Seq<u8>, second: Seq<u8>)
    requires
        b.wf(),
        b.data.len() <= MAX_BUFFER,
    ensures
        b.extended(first).extended(second) == b.extended(first + second),
{
    let x = b.extended(first).extended(second);
    let y = b.extended(first + second);
    assert(x.data =~= y.data);
}

/// New output joins what is unread, and nothing unread is lost while no more
/// than 1 MB of it waits.
pub proof fn unread_output_waits(b: BufferView, more: Seq<u8>)
    requires
        b.wf(),
    ensures
        b.unread().len() + more.len() <= MAX_BUFFER ==> b.extended(more).unread() == b.unread()
            + more,
{
    if b.unread().len() + more.len() <= MAX_BUFFER {
        assert(b.extended(more).unread() =~= b.unread() + more);
    }
}

/// A read from the cursor takes its bytes from the front of what is unread and
/// leaves the rest unread: repeated reads give only fresh data, in order and
/// without gaps.
pub proof fn reads_take_what_is_unread(b: BufferView, offset: int, limit: int)
    requires
        b.wf(),
        0 <= offset <= b.cursor,
        0 <= limit,
    ensures
        b.unread() == b.page_bytes(offset, limit) + b.after_page(offset, limit).unread(),
        b.page_bytes(offset, limit).len() == if limit < b.unread().len() {
            limit
        } else {
            b.unread().len() as int
        },
        b.after_page(offset, limit).data == b.data,
        b.after_page(offset, limit).wf(),
{
    assert(b.unread() =~= b.page_bytes(offset, limit) + b.after_page(offset, limit).unread());
}

/// New output stands behind the old, and at most the newest 1048576 bytes stay.
/// How far the output has been read moves along.
pub proof fn output_is_added_at_the_end(b: BufferView, more: Seq<u8>)
    requires
        b.wf(),
    ensures
        ({
            let all = b.data + more;
            let after = b.extended(more);
            &&& all.len() <= 1_048_576 ==> after.data == all && after.cursor == b.cursor
            &&& all.len() > 1_048_576 ==> {
                let gone = all.len() - 1_048_576;
                &&& after.data == all.subrange(gone, all.len() as int)
                &&& b.cursor >= gone ==> after.cursor == b.cursor - gone
                &&& b.cursor < gone ==> after.cursor == 0
            }
        }),
        BufferView::empty().data.len() == 0,
        BufferView::empty().cursor == 0,
{
    let all = b.data + more;
    assert(all.skip(0) =~= all);
    if all.len() > 1_048_576 {
        let gone = all.len() - 1_048_576;
        assert(all.skip(gone) =~= all.subrange(gone, all.len() as int));
    }
}

/// A read finds the bytes from where it begins, as many as it asks for and as
/// there are; it begins at the cursor, or further on where it asks for that. The
/// next read begins behind what was found. A read behind the end finds nothing
/// and changes nothing.
pub proof fn reads_find_what_is_there(b: BufferView, offset: int, limit: int)
    requires
        b.wf(),
        0 <= offset,
        0 <= limit,
    ensures
        ({
            let from = if offset > b.cursor {
                offset
            } else {
                b.cursor
            };
            let found = b.page_bytes(offset, limit);
            &&& from >= b.data.len() ==> found.len() == 0 && b.after_page(offset, limit) == b
            &&& from < b.data.len() ==> {
                &&& found.len() == if from + limit <= b.data.len() {
                    limit
                } else {
                    b.data.len() - from
                }
                &&& forall|i: int| 0 <= i < found.len() ==> #[trigger] found[i] == b.data[from + i]
                &&& b.after_page(offset, limit).cursor == from + found.len()
                &&& b.after_page(offset, limit).data == b.data
                &&& b.page_end(offset, limit) == from + found.len()
            }
        }),
{
}

/// Output is shown as the text that it is, without what only a terminal
/// understands where that is asked for.
pub proof fn output_is_shown_as_text(bytes: Seq<u8>)
    requires
        bytes.len() > 0,
    ensures
        shown(bytes, false) == lossy_text(bytes),
        shown(bytes, true) == stripped(lossy_text(bytes)),
        shown(Seq::empty(), true).len() == 0,
        shown(Seq::empty(), false).len() == 0,
        vstd::utf8::valid_utf8(bytes) ==> shown(bytes, false) == vstd::utf8::decode_utf8(bytes),
{
}

} // verus!
