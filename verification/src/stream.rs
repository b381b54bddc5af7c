//! The model's streamed answer: lines cut out of the bytes as they arrive, and the
//! answer put together from the records on those lines.

use vstd::prelude::*;
use crate::text::{copy_string, push_text};

verus! {

/// How many pieces of an answer may wait to be taken by the consumer.
pub const TOKEN_CHANNEL_CAPACITY: usize = 100;

/// The byte that ends a line.
pub const LINE_FEED: u8 = 10;

/// The byte that may stand before the end of a line.
pub const CARRIAGE_RETURN: u8 = 13;

/// The lines that `bytes` completes and the bytes of the line begun after them. A line
/// is complete when its line feed has arrived; the line feed is not part of the line.
pub open spec fn framed(bytes: Seq<u8>) -> (Seq<Seq<u8>>, Seq<u8>)
    decreases bytes.len(),
{
    if bytes.len() == 0 {
        (Seq::empty(), Seq::empty())
    } else {
        let before = framed(bytes.drop_last());
        if bytes.last() == LINE_FEED {
            (before.0.push(before.1), Seq::empty())
        } else {
            (before.0, before.1.push(bytes.last()))
        }
    }
}

/// `line` without a carriage return at its end.
pub open spec fn without_cr(line: Seq<u8>) -> Seq<u8> {
    if line.len() > 0 && line.last() == CARRIAGE_RETURN {
        line.drop_last()
    } else {
        line
    }
}

/// The lines of `raw` that hold a record: each without its carriage return, and without
/// the lines that are empty then.
pub open spec fn records_of(raw: Seq<Seq<u8>>) -> Seq<Seq<u8>>
    decreases raw.len(),
{
    if raw.len() == 0 {
        Seq::empty()
    } else if without_cr(raw.last()).len() == 0 {
        records_of(raw.drop_last())
    } else {
        records_of(raw.drop_last()).push(without_cr(raw.last()))
    }
}

/// The bytes of each line of `v`.
pub open spec fn line_views(v: Seq<Vec<u8>>) -> Seq<Seq<u8>> {
    v.map_values(|l: Vec<u8>| l@)
}

/// A line that has begun holds no line feed.
pub proof fn lemma_pending_has_no_line_feed(bytes: Seq<u8>)
    ensures
        forall|i: int| 0 <= i < framed(bytes).1.len() ==> framed(bytes).1[i] != LINE_FEED,
        framed(bytes).1.len() <= bytes.len(),
    decreases bytes.len(),
{
    if bytes.len() > 0 {
        lemma_pending_has_no_line_feed(bytes.drop_last());
    }
}

/// Bytes without a line feed complete no line.
pub proof fn lemma_framed_without_line_feed(bytes: Seq<u8>)
    requires
        forall|i: int| 0 <= i < bytes.len() ==> bytes[i] != LINE_FEED,
    ensures
        framed(bytes) == (Seq::<Seq<u8>>::empty(), bytes),
    decreases bytes.len(),
{
    if bytes.len() > 0 {
        lemma_framed_without_line_feed(bytes.drop_last());
        assert(bytes.drop_last().push(bytes.last()) =~= bytes);
    }
}

/// How the bytes are cut into pieces makes no difference: the lines of `a` followed by
/// the lines that `b` completes after what `a` left begun are the lines of `a` and `b`
/// together, and the same line is begun at the end.
pub proof fn lemma_framing_is_independent_of_chunks(a: Seq<u8>, b: Seq<u8>)
    ensures
        framed(a + b).0 == framed(a).0 + framed(framed(a).1 + b).0,
        framed(a + b).1 == framed(framed(a).1 + b).1,
    decreases b.len(),
{
    let p = framed(a).1;
    if b.len() == 0 {
        assert(a + b =~= a);
        assert(p + b =~= p);
        lemma_pending_has_no_line_feed(a);
        lemma_framed_without_line_feed(p);
        assert(framed(a).0 + Seq::<Seq<u8>>::empty() =~= framed(a).0);
    } else {
        lemma_framing_is_independent_of_chunks(a, b.drop_last());
        assert((a + b).drop_last() =~= a + b.drop_last());
        assert((p + b).drop_last() =~= p + b.drop_last());
        assert((a + b).last() == b.last());
        assert((p + b).last() == b.last());
        let inner = framed(p + b.drop_last());
        if b.last() == LINE_FEED {
            assert((framed(a).0 + inner.0).push(inner.1) =~= framed(a).0 + inner.0.push(inner.1));
        }
    }
}

/// Records are taken line by line: the records of two runs of lines are the records of
/// the first followed by the records of the second.
pub proof fn lemma_records_of_concat(x: Seq<Seq<u8>>, y: Seq<Seq<u8>>)
    ensures
        records_of(x + y) == records_of(x) + records_of(y),
    decreases y.len(),
{
    if y.len() == 0 {
        assert(x + y =~= x);
        assert(records_of(x) + Seq::<Seq<u8>>::empty() =~= records_of(x));
    } else {
        lemma_records_of_concat(x, y.drop_last());
        assert((x + y).drop_last() =~= x + y.drop_last());
        assert((x + y).last() == y.last());
        if without_cr(y.last()).len() > 0 {
            assert((records_of(x) + records_of(y.drop_last())).push(without_cr(y.last())) =~= records_of(
                x,
            ) + records_of(y.drop_last()).push(without_cr(y.last())));
        }
    }
}

/// Cuts a stream of bytes into lines, whatever the pieces in which the bytes arrive.
pub struct LineFramer {
    pending: Vec<u8>,
}

impl LineFramer {
    /// The bytes of the line that has begun.
    pub closed spec fn pending(&self) -> Seq<u8> {
        self.pending@
    }

    /// The line that has begun holds no line feed.
    pub closed spec fn wf(&self) -> bool {
        forall|i: int| 0 <= i < self.pending@.len() ==> self.pending@[i] != LINE_FEED
    }

    /// A framer that has seen nothing.
    pub fn new() -> (f: LineFramer)
        ensures
            f.wf(),
            f.pending() == Seq::<u8>::empty(),
    {
        LineFramer { pending: Vec::new() }
    }

    /// Takes the next bytes and returns the records on the lines they complete.
    pub fn push(&mut self, chunk: &[u8]) -> (records: Vec<Vec<u8>>)
        requires
            old(self).wf(),
        ensures
            final(self).wf(),
            line_views(records@) == records_of(framed(old(self).pending() + chunk@).0),
            final(self).pending() == framed(old(self).pending() + chunk@).1,
    {
        let ghost start = self.pending@;
        let mut records: Vec<Vec<u8>> = Vec::new();
        let mut i: usize = 0;
        proof {
            lemma_framed_without_line_feed(start);
            assert(start + chunk@.take(0) =~= start);
            assert(line_views(records@) =~= Seq::<Seq<u8>>::empty());
        }
        while i < chunk.len()
            invariant
                i <= chunk.len(),
                start == old(self).pending(),
                line_views(records@) == records_of(framed(start + chunk@.take(i as int)).0),
                self.pending@ == framed(start + chunk@.take(i as int)).1,
            decreases chunk.len() - i,
        {
            let b = chunk[i];
            proof {
                let now = start + chunk@.take(i + 1);
                assert(now.drop_last() =~= start + chunk@.take(i as int));
                assert(now.last() == b);
            }
            if b == LINE_FEED {
                let ghost prev = framed(start + chunk@.take(i as int));
                let mut line: Vec<u8> = Vec::new();
                core::mem::swap(&mut line, &mut self.pending);
                let n = line.len();
                if n > 0 && line[n - 1] == CARRIAGE_RETURN {
                    let _ = line.pop();
                }
                assert(line@ =~= without_cr(prev.1));
                proof {
                    let raw = framed(start + chunk@.take(i + 1)).0;
                    assert(raw == prev.0.push(prev.1));
                    assert(raw.drop_last() =~= prev.0);
                    assert(raw.last() == prev.1);
                }
                if line.len() > 0 {
                    let ghost before = line_views(records@);
                    records.push(line);
                    assert(line_views(records@) =~= before.push(line@));
                }
            } else {
                self.pending.push(b);
            }
            i += 1;
        }
        proof {
            assert(chunk@.take(chunk.len() as int) =~= chunk@);
            lemma_pending_has_no_line_feed(start + chunk@);
        }
        records
    }

    /// Ends the stream: returns the record on the line that was begun and never ended,
    /// if there is one, and leaves the framer as new.
    pub fn finish(&mut self) -> (record: Option<Vec<u8>>)
        ensures
            final(self).wf(),
            final(self).pending() == Seq::<u8>::empty(),
            match record {
                Some(r) => r@ == without_cr(old(self).pending()) && r@.len() > 0,
                None => without_cr(old(self).pending()).len() == 0,
            },
    {
        let mut line: Vec<u8> = Vec::new();
        core::mem::swap(&mut line, &mut self.pending);
        let n = line.len();
        if n > 0 && line[n - 1] == CARRIAGE_RETURN {
            let _ = line.pop();
        }
        if line.len() > 0 {
            Some(line)
        } else {
            None
        }
    }
}

/// One record of the stream.
pub enum StreamRecord {
    /// A piece of the answer, and whether the answer ends with it.
    Piece { response: String, done: bool },
    /// A line that is no record; it is passed over.
    Malformed,
}

/// What the reader of the stream does after a record.
#[derive(Debug, PartialEq, Eq)]
pub enum StreamAction {
    /// Read on.
    Continue,
    /// Hand the piece to the consumer, then read on.
    Forward(String),
    /// Hand the piece to the consumer, then stop: the answer is complete.
    ForwardAndStop(String),
    /// Stop: the answer is complete.
    Stop,
}

/// The answer as far as it has come in.
pub struct StreamAccumulator {
    complete_response: String,
    finished: bool,
}

/// The piece of the answer that a record carries; empty for a line that is no record.
pub open spec fn piece_of(record: StreamRecord) -> Seq<char> {
    match record {
        StreamRecord::Piece { response, done } => response@,
        StreamRecord::Malformed => Seq::empty(),
    }
}

/// Whether a record ends the answer.
pub open spec fn ends_answer(record: StreamRecord) -> bool {
    match record {
        StreamRecord::Piece { response, done } => done,
        StreamRecord::Malformed => false,
    }
}

/// The answer that the records from `k` on give: their pieces, one after the other, up
/// to and with the first record that ends the answer.
pub open spec fn answer_from(records: Seq<StreamRecord>, k: int) -> Seq<char>
    decreases records.len() - k,
{
    if k < 0 || k >= records.len() {
        Seq::empty()
    } else if ends_answer(records[k]) {
        piece_of(records[k])
    } else {
        piece_of(records[k]) + answer_from(records, k + 1)
    }
}

/// Whether a record from `k` on ends the answer.
pub open spec fn ends_from(records: Seq<StreamRecord>, k: int) -> bool
    decreases records.len() - k,
{
    if k < 0 || k >= records.len() {
        false
    } else {
        ends_answer(records[k]) || ends_from(records, k + 1)
    }
}

/// The text held after the records from `k` on were taken one by one, `text` being held
/// before and `finished` telling whether the stream had ended.
pub open spec fn text_after(text: Seq<char>, finished: bool, records: Seq<StreamRecord>, k: int) -> Seq<char>
    decreases records.len() - k,
{
    if k < 0 || k >= records.len() {
        text
    } else if finished {
        text_after(text, true, records, k + 1)
    } else {
        text_after(text + piece_of(records[k]), ends_answer(records[k]), records, k + 1)
    }
}

/// Taking records one by one puts the answer together: what is held in the end is what
/// was held before, followed by the pieces up to and with the first record that ends
/// the answer. Records behind that one add nothing.
pub proof fn lemma_answer_is_concatenation(text: Seq<char>, records: Seq<StreamRecord>, k: int)
    requires
        0 <= k <= records.len(),
    ensures
        text_after(text, false, records, k) == text + answer_from(records, k),
        text_after(text, true, records, k) == text,
    decreases records.len() - k,
{
    if k < records.len() {
        lemma_answer_is_concatenation(text, records, k + 1);
        lemma_answer_is_concatenation(text + piece_of(records[k]), records, k + 1);
        assert((text + piece_of(records[k])) + answer_from(records, k + 1) =~= text + (piece_of(records[k])
            + answer_from(records, k + 1)));
    } else {
        assert(text + Seq::<char>::empty() =~= text);
    }
}

proof fn lemma_text_after_one(text: Seq<char>, finished: bool, record: StreamRecord)
    ensures
        text_after(text, finished, seq![record], 0) == (if finished {
            text
        } else {
            text + piece_of(record)
        }),
{
    let one = seq![record];
    assert(one[0] == record);
    assert(text_after(text, true, one, 1) == text);
    assert(text_after(text + piece_of(record), ends_answer(record), one, 1) == text + piece_of(record));
}

impl StreamAccumulator {
    /// The answer so far.
    pub closed spec fn text(&self) -> Seq<char> {
        self.complete_response@
    }

    /// Whether the stream has ended.
    pub closed spec fn finished(&self) -> bool {
        self.finished
    }

    /// An empty answer.
    pub fn new() -> (a: StreamAccumulator)
        ensures
            a.text() == Seq::<char>::empty(),
            !a.finished(),
    {
        StreamAccumulator { complete_response: String::new(), finished: false }
    }

    /// Takes a record. After the end of the stream a record changes nothing. Otherwise
    /// its piece is added to the answer and, unless it is empty, is to be handed to the
    /// consumer; a record that says so ends the stream.
    pub fn accept(&mut self, record: StreamRecord) -> (action: StreamAction)
        ensures
            final(self).text() == text_after(old(self).text(), old(self).finished(), seq![record], 0),
            old(self).finished() ==> action == StreamAction::Stop && final(self).text() == old(
                self,
            ).text() && final(self).finished(),
            !old(self).finished() ==> final(self).text() == old(self).text() + piece_of(record)
                && final(self).finished() == ends_answer(record) && (match action {
                StreamAction::Continue => piece_of(record).len() == 0 && !ends_answer(record),
                StreamAction::Forward(p) => p@ == piece_of(record) && p@.len() > 0 && !ends_answer(
                    record,
                ),
                StreamAction::ForwardAndStop(p) => p@ == piece_of(record) && p@.len() > 0
                    && ends_answer(record),
                StreamAction::Stop => piece_of(record).len() == 0 && ends_answer(record),
            }),
    {
        proof {
            lemma_text_after_one(self.text(), self.finished(), record);
        }
        if self.finished {
            return StreamAction::Stop;
        }
        match record {
            StreamRecord::Malformed => {
                assert(self.text() + Seq::<char>::empty() =~= self.text());
                StreamAction::Continue
            },
            StreamRecord::Piece { response, done } => {
                let empty = response.as_str().unicode_len() == 0;
                push_text(&mut self.complete_response, response.as_str());
                self.finished = done;
                if empty {
                    if done {
                        StreamAction::Stop
                    } else {
                        StreamAction::Continue
                    }
                } else if done {
                    StreamAction::ForwardAndStop(response)
                } else {
                    StreamAction::Forward(response)
                }
            },
        }
    }

    /// Notes that the consumer is gone: the stream ends with the answer so far.
    pub fn consumer_gone(&mut self)
        ensures
            final(self).text() == old(self).text(),
            final(self).finished(),
    {
        self.finished = true;
    }

    pub fn is_finished(&self) -> (b: bool)
        ensures
            b == self.finished(),
    {
        self.finished
    }

    /// The answer so far.
    pub fn response(&self) -> (r: String)
        ensures
            r@ == self.text(),
    {
        copy_string(&self.complete_response)
    }
}

/// A model as the server lists it.
#[derive(Debug, Clone)]
pub struct OllamaModelInfo {
    pub name: String,
    pub size: u64,
    pub digest: String,
    pub modified_at: String,
}

/// A model as the user interface lists it.
#[derive(Debug, Clone)]
pub struct OllamaModel {
    pub name: String,
}

/// The names of `models`, in order.
pub fn model_names(models: &Vec<OllamaModelInfo>) -> (names: Vec<String>)
    ensures
        names@.len() == models@.len(),
        forall|i: int| 0 <= i < names@.len() ==> (#[trigger] names@[i])@ == models@[i].name@,
{
    let mut names: Vec<String> = Vec::new();
    let mut i: usize = 0;
    while i < models.len()
        invariant
            i <= models.len(),
            names@.len() == i,
            forall|j: int| 0 <= j < i ==> (#[trigger] names@[j])@ == models@[j].name@,
        decreases models.len() - i,
    {
        names.push(copy_string(&models[i].name));
        i += 1;
    }
    names
}

/// `base_url` without slashes at its end.
pub open spec fn without_trailing_slashes(base_url: Seq<char>) -> Seq<char>
    decreases base_url.len(),
{
    if base_url.len() > 0 && base_url.last() == '/' {
        without_trailing_slashes(base_url.drop_last())
    } else {
        base_url
    }
}

/// The address of an endpoint of the server at `base_url`: the base without slashes at
/// its end, followed by `path`.
pub fn endpoint_url(base_url: &str, path: &str) -> (url: String)
    ensures
        url@ == without_trailing_slashes(base_url@) + path@,
{
    let b = crate::text::chars_of(base_url);
    let mut n = b.len();
    assert(b@.take(n as int) =~= b@);
    while n > 0 && b[n - 1] == '/'
        invariant
            n <= b.len(),
            without_trailing_slashes(b@) == without_trailing_slashes(b@.take(n as int)),
        decreases n,
    {
        proof {
            let head = b@.take(n as int);
            assert(head.last() == b@[n - 1]);
            assert(head.drop_last() =~= b@.take(n - 1));
        }
        n -= 1;
    }
    proof {
        let head = b@.take(n as int);
        if n > 0 {
            assert(head.last() == b@[n - 1]);
        }
        assert(b@.subrange(0, n as int) =~= head);
    }
    let mut url = crate::text::string_between(b.as_slice(), 0, n);
    push_text(&mut url, path);
    url
}

} // verus!
