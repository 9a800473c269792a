//! Output framing: crawled pages as one JSON object per line ([JSON Lines]).
//!
//! [JSON Lines]: https://jsonlines.org/

use vstd::prelude::*;
use vstd::string::StringExecFns;

verus! {

/// Each of `records` on a line of its own.
pub open spec fn lines(records: Seq<Seq<char>>) -> Seq<char>
    decreases records.len(),
{
    if records.len() == 0 {
        Seq::empty()
    } else {
        lines(records.drop_last()) + records.last() + "\n"@
    }
}

/// Collects records, one per line, until they are written out.
pub struct JsonlSink {
    buffer: String,
    records: Ghost<Seq<Seq<char>>>,
}

impl View for JsonlSink {
    type V = Seq<Seq<char>>;

    /// The records that were not written out yet.
    closed spec fn view(&self) -> Seq<Seq<char>> {
        self.records@
    }
}

impl JsonlSink {
    /// The buffer holds the records, one per line.
    pub closed spec fn wf(&self) -> bool {
        self.buffer@ == lines(self.records@)
    }

    /// A sink with nothing in it.
    pub fn new() -> (r: Self)
        ensures
            r.wf(),
            r@ == Seq::<Seq<char>>::empty(),
    {
        let buffer = String::new();
        proof {
            assert(buffer@ =~= Seq::empty());
        }
        JsonlSink { buffer, records: Ghost(Seq::empty()) }
    }

    /// Add the record of one page.
    pub fn page(&mut self, record: &str)
        requires
            old(self).wf(),
        ensures
            final(self).wf(),
            final(self)@ == old(self)@.push(record@),
    {
        proof {
            let after = self.records@.push(record@);
            assert(after.drop_last() =~= self.records@);
            self.records = Ghost(after);
        }
        self.buffer.append(record);
        self.buffer.append("\n");
    }

    /// Hand over everything that is waiting to be written out.
    pub fn take(&mut self) -> (r: String)
        requires
            old(self).wf(),
        ensures
            final(self).wf(),
            final(self)@ == Seq::<Seq<char>>::empty(),
            r@ == lines(old(self)@),
    {
        let mut out: String = String::new();
        std::mem::swap(&mut out, &mut self.buffer);
        proof {
            self.records = Ghost(Seq::empty());
            assert(self.buffer@ =~= Seq::empty());
        }
        out
    }
}

/// Whether a record stays on its line.
pub open spec fn single_line(record: Seq<char>) -> bool {
    !record.contains('\n')
}

proof fn lines_end_with_a_break(records: Seq<Seq<char>>)
    requires
        records.len() > 0,
    ensures
        lines(records).len() > 0,
        lines(records).last() == '\n',
{
    reveal_strlit("\n");
}

/// Records that stay on their lines can be told apart again: two lists of them
/// that are framed the same are the same.
pub proof fn framing_loses_nothing(a: Seq<Seq<char>>, b: Seq<Seq<char>>)
    requires
        forall|i: int| 0 <= i < a.len() ==> single_line(#[trigger] a[i]),
        forall|i: int| 0 <= i < b.len() ==> single_line(#[trigger] b[i]),
        lines(a) == lines(b),
    ensures
        a == b,
    decreases a.len(),
{
    reveal_strlit("\n");
    if a.len() == 0 {
        if b.len() > 0 {
            lines_end_with_a_break(b);
        }
        assert(a =~= b);
    } else {
        lines_end_with_a_break(a);
        assert(b.len() > 0);
        let a0 = lines(a.drop_last());
        let b0 = lines(b.drop_last());
        let ra = a.last();
        let rb = b.last();
        assert(single_line(a[a.len() - 1]) && single_line(b[b.len() - 1]));
        let x = lines(a);
        let n = x.len() - 1;
        assert(forall|i: int| 0 <= i < ra.len() ==> x[a0.len() + i] == ra[i]);
        assert(forall|i: int| 0 <= i < rb.len() ==> x[b0.len() + i] == rb[i]);
        if ra.len() < rb.len() {
            assert(a0.len() > 0);
            if a.drop_last().len() > 0 {
                lines_end_with_a_break(a.drop_last());
            }
            assert(x[a0.len() - 1] == '\n');
            assert(rb[a0.len() - 1 - b0.len()] == '\n');
        }
        if rb.len() < ra.len() {
            assert(b0.len() > 0);
            if b.drop_last().len() > 0 {
                lines_end_with_a_break(b.drop_last());
            }
            assert(x[b0.len() - 1] == '\n');
            assert(ra[b0.len() - 1 - a0.len()] == '\n');
        }
        assert(ra =~= rb);
        assert(a0 =~= x.take(a0.len() as int));
        assert(b0 =~= x.take(b0.len() as int));
        assert forall|i: int| 0 <= i < a.drop_last().len() implies single_line(
            #[trigger] a.drop_last()[i],
        ) by {
            assert(a.drop_last()[i] == a[i]);
        }
        assert forall|i: int| 0 <= i < b.drop_last().len() implies single_line(
            #[trigger] b.drop_last()[i],
        ) by {
            assert(b.drop_last()[i] == b[i]);
        }
        framing_loses_nothing(a.drop_last(), b.drop_last());
        assert(a =~= a.drop_last().push(ra));
        assert(b =~= b.drop_last().push(rb));
    }
}

/// Every record is written out whole, in order, with a line break behind it, and
/// nothing else is.
pub proof fn records_are_written_line_by_line(records: Seq<Seq<char>>, record: Seq<char>)
    ensures
        lines(records.push(record)) == lines(records) + record + seq!['\n'],
        lines(Seq::empty()).len() == 0,
{
    reveal_strlit("\n");
    assert("\n"@ =~= seq!['\n']);
    assert(records.push(record).drop_last() =~= records);
    assert(records.push(record).last() == record);
}

} // verus!
