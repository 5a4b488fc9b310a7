//! Reports whose format is chosen by the caller: the generator owns the
//! data, the formatter owns the syntax.

use vstd::prelude::*;
use vstd::string::*;
use crate::text::{decimal, lemma_decimal_is_one_line, lemma_line_breaks_concat, lemma_no_line_breaks, line_breaks, push_decimal};

verus! {

/// Whether no key occurs twice among `entries`.
pub open spec fn distinct_keys(entries: Seq<(Seq<char>, u32)>) -> bool {
    forall|i: int, j: int|
        0 <= i < j < entries.len() ==> (#[trigger] entries[i]).0 != (#[trigger] entries[j]).0
}

/// Whether `key` is the key of one of `entries`.
pub open spec fn has_key(entries: Seq<(Seq<char>, u32)>, key: Seq<char>) -> bool {
    exists|i: int| 0 <= i < entries.len() && (#[trigger] entries[i]).0 == key
}

/// A keyed dataset: every key has one value, and entries keep the order in
/// which their keys first came in.
#[derive(Debug)]
pub struct Data {
    entries: Vec<(String, u32)>,
}

impl View for Data {
    type V = Seq<(Seq<char>, u32)>;

    /// The entries, in order, each as its key and its value.
    closed spec fn view(&self) -> Seq<(Seq<char>, u32)> {
        Seq::new(self.entries@.len(), |i: int| (self.entries@[i].0@, self.entries@[i].1))
    }
}

impl Data {
    /// Whether the dataset is in order: no key occurs twice.
    pub open spec fn wf(&self) -> bool {
        distinct_keys(self@)
    }

    /// The empty dataset.
    pub fn new() -> (data: Data)
        ensures
            data.wf(),
            data@ == Seq::<(Seq<char>, u32)>::empty(),
    {
        let data = Data { entries: Vec::new() };
        assert(data@ =~= Seq::<(Seq<char>, u32)>::empty());
        data
    }

    /// The number of entries.
    pub fn len(&self) -> (n: usize)
        ensures
            n == self@.len(),
    {
        self.entries.len()
    }

    /// Whether there is no entry.
    pub fn is_empty(&self) -> (b: bool)
        ensures
            b == (self@.len() == 0),
    {
        self.entries.len() == 0
    }

    /// The key of the entry at `i`.
    pub fn key(&self, i: usize) -> (key: &str)
        requires
            i < self@.len(),
        ensures
            key@ == self@[i as int].0,
    {
        self.entries[i].0.as_str()
    }

    /// The value of the entry at `i`.
    pub fn value(&self, i: usize) -> (value: u32)
        requires
            i < self@.len(),
        ensures
            value == self@[i as int].1,
    {
        self.entries[i].1
    }

    /// Gives `key` the value `value`. A key that is already present keeps
    /// its place and has its value replaced, and the value it had is
    /// returned; a new key goes to the end.
    pub fn insert(&mut self, key: String, value: u32) -> (previous: Option<u32>)
        requires
            old(self).wf(),
        ensures
            final(self).wf(),
            match previous {
                Some(before) => exists|i: int|
                    0 <= i < old(self)@.len() && #[trigger] old(self)@[i] == (key@, before)
                        && final(self)@ == old(self)@.update(i, (key@, value)),
                None => !has_key(old(self)@, key@) && final(self)@ == old(self)@.push((key@, value)),
            },
    {
        let mut i: usize = 0;
        while i < self.entries.len()
            invariant
                i <= self.entries@.len(),
                *self == *old(self),
                distinct_keys(self@),
                forall|j: int| 0 <= j < i ==> (#[trigger] self@[j]).0 != key@,
            decreases self.entries@.len() - i,
        {
            if self.entries[i].0 == key {
                let before = self.entries[i].1;
                let ghost was = self@;
                self.entries.set(i, (key, value));
                proof {
                    assert(self@ =~= was.update(i as int, (key@, value)));
                    assert(was[i as int] == (key@, before));
                    assert forall|a: int, b: int| 0 <= a < b < self@.len() implies (#[trigger] self@[a]).0
                        != (#[trigger] self@[b]).0 by {
                        assert(was[a].0 != was[b].0);
                    }
                }
                return Some(before);
            }
            i += 1;
        }
        let ghost was = self@;
        self.entries.push((key, value));
        proof {
            assert(self@ =~= was.push((key@, value)));
            assert forall|a: int, b: int| 0 <= a < b < self@.len() implies (#[trigger] self@[a]).0
                != (#[trigger] self@[b]).0 by {
                if b < was.len() {
                    assert(was[a].0 != was[b].0);
                } else {
                    assert(was[a].0 != key@);
                }
            }
        }
        None
    }
}

/// A report format: it turns a dataset into text.
pub trait Formatter {
    /// Whether `text` is a rendering of `entries` in this format. A format
    /// that says nothing allows every text.
    open spec fn renders(&self, entries: Seq<(Seq<char>, u32)>, text: Seq<char>) -> bool {
        true
    }

    /// Appends a rendering of `data` to `buf`; what `buf` held stays.
    fn format(&self, data: &Data, buf: &mut String)
        ensures
            exists|text: Seq<char>|
                final(buf)@ == old(buf)@ + text && #[trigger] self.renders(data@, text),
    ;
}

/// Generates reports in whatever format it is handed.
pub struct Report;

/// The entries every report is made of.
pub open spec fn report_entries() -> Seq<(Seq<char>, u32)> {
    seq![("one"@, 1u32), ("two"@, 2u32)]
}

impl Report {
    /// Produces the report's data and appends its rendering by `g` to `s`, in
    /// one call of `g`.
    pub fn generate<F: Formatter>(g: F, s: &mut String)
        ensures
            exists|text: Seq<char>|
                final(s)@ == old(s)@ + text && #[trigger] g.renders(report_entries(), text),
    {
        let mut data = Data::new();
        data.insert("one".to_owned(), 1);
        assert(data@ =~= seq![("one"@, 1u32)]);
        proof {
            reveal_strlit("one");
            reveal_strlit("two");
            assert("one"@[0] != "two"@[0]);
        }
        data.insert("two".to_owned(), 2);
        assert(data@ =~= report_entries());
        g.format(&data, s);
    }
}

/// One line of the line format: the key, a space, the value in decimal and
/// a line break.
pub open spec fn text_line(entry: (Seq<char>, u32)) -> Seq<char> {
    entry.0 + " "@ + decimal(entry.1 as nat) + "\n"@
}

/// The lines of `entries`, one after the other in the order of the entries.
pub open spec fn text_lines(entries: Seq<(Seq<char>, u32)>) -> Seq<char>
    decreases entries.len(),
{
    if entries.len() == 0 {
        Seq::empty()
    } else {
        text_lines(entries.drop_last()) + text_line(entries.last())
    }
}

/// The line format: one line for each entry.
pub struct Text;

impl Formatter for Text {
    open spec fn renders(&self, entries: Seq<(Seq<char>, u32)>, text: Seq<char>) -> bool {
        text == text_lines(entries)
    }

    fn format(&self, data: &Data, buf: &mut String) {
        let n = data.len();
        let mut i: usize = 0;
        while i < n
            invariant
                i <= n,
                n == data@.len(),
                buf@ == old(buf)@ + text_lines(data@.take(i as int)),
            decreases n - i,
        {
            let ghost before = buf@;
            buf.append(data.key(i));
            buf.append(" ");
            push_decimal(buf, data.value(i) as u64);
            buf.append("\n");
            proof {
                let upto = data@.take(i + 1);
                assert(upto.drop_last() =~= data@.take(i as int));
                assert(upto.last() == data@[i as int]);
                assert(buf@ =~= before + text_line(data@[i as int]));
                assert(buf@ =~= old(buf)@ + text_lines(upto));
            }
            i += 1;
        }
        proof {
            assert(data@.take(n as int) =~= data@);
            assert(self.renders(data@, text_lines(data@)));
        }
    }
}

/// One record of the structured format: the key and the value in decimal,
/// each in double quotes, with a colon between them, in braces.
pub open spec fn json_record(entry: (Seq<char>, u32)) -> Seq<char> {
    "{\""@ + entry.0 + "\":\""@ + decimal(entry.1 as nat) + "\"}"@
}

/// The records of `entries` in the order of the entries, with a comma
/// between neighbours and none before the first or after the last.
pub open spec fn json_records(entries: Seq<(Seq<char>, u32)>) -> Seq<char>
    decreases entries.len(),
{
    if entries.len() == 0 {
        Seq::empty()
    } else if entries.len() == 1 {
        json_record(entries.last())
    } else {
        json_records(entries.drop_last()) + ","@ + json_record(entries.last())
    }
}

/// The whole of the structured format: the records between brackets.
pub open spec fn json_list(entries: Seq<(Seq<char>, u32)>) -> Seq<char> {
    "["@ + json_records(entries) + "]"@
}

/// The structured format: a bracketed list of records.
pub struct Json;

impl Formatter for Json {
    open spec fn renders(&self, entries: Seq<(Seq<char>, u32)>, text: Seq<char>) -> bool {
        text == json_list(entries)
    }

    fn format(&self, data: &Data, buf: &mut String) {
        buf.append("[");
        let n = data.len();
        let mut i: usize = 0;
        while i < n
            invariant
                i <= n,
                n == data@.len(),
                buf@ == old(buf)@ + "["@ + json_records(data@.take(i as int)),
            decreases n - i,
        {
            let ghost before = buf@;
            if i > 0 {
                buf.append(",");
            }
            buf.append("{\"");
            buf.append(data.key(i));
            buf.append("\":\"");
            push_decimal(buf, data.value(i) as u64);
            buf.append("\"}");
            proof {
                let upto = data@.take(i + 1);
                assert(upto.drop_last() =~= data@.take(i as int));
                assert(upto.last() == data@[i as int]);
                if i > 0 {
                    assert(buf@ =~= before + ","@ + json_record(data@[i as int]));
                } else {
                    assert(buf@ =~= before + json_record(data@[i as int]));
                    assert(json_records(data@.take(0)) =~= Seq::<char>::empty());
                }
                assert(buf@ =~= old(buf)@ + "["@ + json_records(upto));
            }
            i += 1;
        }
        proof {
            assert(data@.take(n as int) =~= data@);
        }
        buf.append("]");
        proof {
            assert(buf@ =~= old(buf)@ + json_list(data@));
            assert(self.renders(data@, json_list(data@)));
        }
    }
}

/// The lines of a dataset in two parts are the lines of the first part
/// followed by the lines of the second.
pub proof fn lemma_text_lines_concat(a: Seq<(Seq<char>, u32)>, b: Seq<(Seq<char>, u32)>)
    ensures
        text_lines(a + b) == text_lines(a) + text_lines(b),
    decreases b.len(),
{
    if b.len() == 0 {
        assert(a + b =~= a);
        assert(text_lines(a) + text_lines(b) =~= text_lines(a));
    } else {
        assert((a + b).drop_last() =~= a + b.drop_last());
        assert((a + b).last() == b.last());
        lemma_text_lines_concat(a, b.drop_last());
        assert(text_lines(a + b) =~= text_lines(a) + text_lines(b));
    }
}

/// In the line format every entry has its line, whole and in its place:
/// after the lines of the entries before it and before the lines of the
/// entries after it. No entry is left out and none is written twice.
pub proof fn lemma_text_line_of_entry(entries: Seq<(Seq<char>, u32)>, i: int)
    requires
        0 <= i < entries.len(),
    ensures
        text_lines(entries) == text_lines(entries.take(i)) + text_line(entries[i]) + text_lines(
            entries.skip(i + 1),
        ),
{
    let upto = entries.take(i + 1);
    assert(entries =~= upto + entries.skip(i + 1));
    lemma_text_lines_concat(upto, entries.skip(i + 1));
    assert(upto.drop_last() =~= entries.take(i));
    assert(upto.last() == entries[i]);
}

/// The line format writes as many lines as there are entries, provided no
/// key holds a line break itself.
pub proof fn lemma_text_one_line_per_entry(entries: Seq<(Seq<char>, u32)>)
    requires
        forall|i: int| 0 <= i < entries.len() ==> !(#[trigger] entries[i]).0.contains('\n'),
    ensures
        line_breaks(text_lines(entries)) == entries.len(),
    decreases entries.len(),
{
    if entries.len() > 0 {
        let entry = entries.last();
        assert(entry == entries[entries.len() - 1]);
        assert forall|i: int| 0 <= i < entries.drop_last().len() implies !(
        #[trigger] entries.drop_last()[i]).0.contains('\n') by {
            assert(entries.drop_last()[i] == entries[i]);
        }
        lemma_text_one_line_per_entry(entries.drop_last());
        reveal_strlit(" ");
        reveal_strlit("\n");
        lemma_decimal_is_one_line(entry.1 as int);
        lemma_no_line_breaks(entry.0);
        lemma_no_line_breaks(decimal(entry.1 as nat));
        assert(!" "@.contains('\n'));
        lemma_no_line_breaks(" "@);
        assert("\n"@.drop_last() =~= Seq::<char>::empty());
        assert(line_breaks("\n"@.drop_last()) == 0);
        assert("\n"@.last() == '\n');
        assert(line_breaks("\n"@) == 1);
        lemma_line_breaks_concat(entry.0, " "@);
        lemma_line_breaks_concat(entry.0 + " "@, decimal(entry.1 as nat));
        lemma_line_breaks_concat(entry.0 + " "@ + decimal(entry.1 as nat), "\n"@);
        lemma_line_breaks_concat(text_lines(entries.drop_last()), text_line(entry));
    }
}

/// The structured format of the empty dataset is the empty list.
pub proof fn lemma_json_empty()
    ensures
        json_list(Seq::empty()) == "[]"@,
{
    reveal_strlit("[");
    reveal_strlit("]");
    reveal_strlit("[]");
    assert(json_list(Seq::empty()) =~= "[]"@);
}

/// The records of a dataset in two parts, neither of them empty, are the
/// records of the first part, one comma, and the records of the second.
pub proof fn lemma_json_records_concat(a: Seq<(Seq<char>, u32)>, b: Seq<(Seq<char>, u32)>)
    requires
        a.len() > 0,
        b.len() > 0,
    ensures
        json_records(a + b) == json_records(a) + ","@ + json_records(b),
    decreases b.len(),
{
    assert((a + b).drop_last() =~= a + b.drop_last());
    assert((a + b).last() == b.last());
    if b.len() == 1 {
        assert(a + b.drop_last() =~= a);
    } else {
        lemma_json_records_concat(a, b.drop_last());
        assert(json_records(a + b) =~= json_records(a) + ","@ + json_records(b));
    }
}

/// The structured format never ends in a separator: the list closes right
/// after the opening bracket when the dataset is empty, and right after the
/// closing brace of the last record when it is not.
pub proof fn lemma_json_no_trailing_separator(entries: Seq<(Seq<char>, u32)>)
    ensures
        json_list(entries).len() >= 2,
        json_list(entries).first() == '[',
        json_list(entries).last() == ']',
        json_list(entries)[json_list(entries).len() - 2] == if entries.len() == 0 {
            '['
        } else {
            '}'
        },
{
    reveal_strlit("[");
    reveal_strlit("]");
    reveal_strlit("\"}");
    reveal_strlit(",");
    let records = json_records(entries);
    if entries.len() > 0 {
        let record = json_record(entries.last());
        assert(record.last() == '}');
        assert(records.len() > 0 && records.last() == '}');
    }
}

} // verus!
