use vstd::prelude::*;
use vstd::std_specs::cmp::PartialEqSpecImpl;
use super::text::{ascii_lower, to_lower, lemma_lower_idempotent};

verus! {

/// One header as the map holds it: the name as it was last written and the value.
pub struct HeaderLine {
    pub name: Seq<char>,
    pub value: Seq<char>,
}

impl HeaderLine {
    /// The key under which the header is found: its name in lower case.
    pub open spec fn key(self) -> Seq<char> {
        ascii_lower(self.name)
    }
}

/// No two lines share a key.
pub open spec fn unique_keys(lines: Seq<HeaderLine>) -> bool {
    forall|i: int, j: int| 0 <= i < j < lines.len() ==> lines[i].key() != lines[j].key()
}

/// Whether some line has the key.
pub open spec fn has_key(lines: Seq<HeaderLine>, key: Seq<char>) -> bool {
    exists|i: int| 0 <= i < lines.len() && #[trigger] lines[i].key() == key
}

/// The place of a line with the key, where there is one.
pub open spec fn place_of(lines: Seq<HeaderLine>, key: Seq<char>) -> int {
    choose|i: int| 0 <= i < lines.len() && #[trigger] lines[i].key() == key
}

/// The lines as a finite map from key to value.
pub open spec fn line_map(lines: Seq<HeaderLine>) -> Map<Seq<char>, Seq<char>> {
    Map::new(|k: Seq<char>| has_key(lines, k), |k: Seq<char>| lines[place_of(lines, k)].value)
}

/// The lines after a header is set: a line with the same key is replaced where
/// it stands, otherwise the new line goes to the end. The value is kept as
/// it was given.
pub open spec fn put_line(lines: Seq<HeaderLine>, name: Seq<char>, value: Seq<char>) -> Seq<
    HeaderLine,
> {
    let line = HeaderLine { name: name, value: value };
    if has_key(lines, line.key()) {
        lines.update(place_of(lines, line.key()), line)
    } else {
        lines.push(line)
    }
}

/// Setting a header keeps the keys unique and acts on the map as an insertion.
pub proof fn lemma_put_line(lines: Seq<HeaderLine>, name: Seq<char>, value: Seq<char>)
    requires
        unique_keys(lines),
    ensures
        unique_keys(put_line(lines, name, value)),
        line_map(put_line(lines, name, value)) == line_map(lines).insert(ascii_lower(name), value),
{
    let line = HeaderLine { name: name, value: value };
    let key = line.key();
    let after = put_line(lines, name, value);
    let want = line_map(lines).insert(key, value);
    if has_key(lines, key) {
        let p = place_of(lines, key);
        assert forall|i: int| 0 <= i < lines.len() implies #[trigger] after[i].key()
            == lines[i].key() by {}
        assert forall|k: Seq<char>| has_key(after, k) <==> has_key(lines, k) by {
            if has_key(after, k) {
                let i = place_of(after, k);
                assert(lines[i].key() == k);
            }
            if has_key(lines, k) {
                let i = place_of(lines, k);
                assert(after[i].key() == k);
            }
        }
        assert forall|k: Seq<char>| has_key(after, k) implies #[trigger] line_map(after)[k]
            == want[k] by {
            let i = place_of(after, k);
            let j = place_of(lines, k);
            assert(lines[i].key() == k);
            assert(i == j);
            if k == key {
                assert(i == p);
            }
        }
        assert(line_map(after) =~= want);
    } else {
        assert forall|i: int| 0 <= i < lines.len() implies #[trigger] after[i].key()
            == lines[i].key() by {}
        assert(after[lines.len() as int].key() == key);
        assert forall|k: Seq<char>| has_key(after, k) <==> (has_key(lines, k) || k == key) by {
            if has_key(after, k) {
                let i = place_of(after, k);
                if i < lines.len() {
                    assert(lines[i].key() == k);
                }
            }
            if has_key(lines, k) {
                let i = place_of(lines, k);
                assert(after[i].key() == k);
            }
        }
        assert forall|k: Seq<char>| has_key(after, k) implies #[trigger] line_map(after)[k]
            == want[k] by {
            let i = place_of(after, k);
            if k == key {
                if i < lines.len() {
                    assert(lines[i].key() == k);
                }
            } else {
                assert(i < lines.len());
                assert(lines[i].key() == k);
                let j = place_of(lines, k);
                assert(i == j);
            }
        }
        assert(line_map(after) =~= want);
    }
}

/// The key of the header that declares the length of the body.
pub open spec fn length_key() -> Seq<char> {
    ascii_lower("Content-Length"@)
}

/// One header line as it stands in a message: the name, a colon and a
/// space, the value, and a line end.
pub open spec fn line_text(line: HeaderLine) -> Seq<char> {
    line.name + ": "@ + line.value + "\r\n"@
}

/// The text of those lines, in order, that declare the length of the body
/// (`length` true) or that do not (`length` false).
pub open spec fn lines_text(lines: Seq<HeaderLine>, length: bool) -> Seq<char>
    decreases lines.len(),
{
    if lines.len() == 0 {
        Seq::empty()
    } else if (lines.last().key() == length_key()) == length {
        lines_text(lines.drop_last(), length) + line_text(lines.last())
    } else {
        lines_text(lines.drop_last(), length)
    }
}

/// The header lines as they stand in a message: the headers in their order,
/// but for `Content-Length`, which stands behind all the others.
pub open spec fn header_block(lines: Seq<HeaderLine>) -> Seq<char> {
    lines_text(lines, false) + lines_text(lines, true)
}

/// A stored header: the lower-case key, the name as written, the value.
#[derive(Debug)]
pub struct HeaderEntry {
    key: String,
    name: String,
    value: String,
}

impl Clone for HeaderEntry {
    fn clone(&self) -> (r: HeaderEntry)
        ensures
            r == *self,
    {
        HeaderEntry { key: self.key.clone(), name: self.name.clone(), value: self.value.clone() }
    }
}

/// The HTTP header map. Names are not case sensitive: a header is found under
/// any spelling of its name, and setting it again replaces its value. Values
/// are kept as they were given. The headers keep the order in which their
/// names were first set.
#[derive(Debug)]
pub struct Headers {
    entries: Vec<HeaderEntry>,
}

pub closed spec fn entry_lines(entries: Seq<HeaderEntry>) -> Seq<HeaderLine> {
    Seq::new(entries.len(), |i: int| HeaderLine { name: entries[i].name@, value: entries[i].value@ })
}

impl View for Headers {
    type V = Map<Seq<char>, Seq<char>>;

    /// The headers as a map from lower-case name to value.
    open spec fn view(&self) -> Map<Seq<char>, Seq<char>> {
        line_map(self.lines())
    }
}

impl Headers {
    #[verifier::type_invariant]
    spec fn inv(self) -> bool {
        &&& forall|i: int|
            0 <= i < self.entries.len() ==> (#[trigger] self.entries[i]).key@ == ascii_lower(
                self.entries[i].name@,
            )
        &&& unique_keys(entry_lines(self.entries@))
    }

    /// The headers in order, each with its name as written and its value.
    pub closed spec fn lines(&self) -> Seq<HeaderLine> {
        entry_lines(self.entries@)
    }

    /// An empty header map.
    pub fn new() -> (h: Headers)
        ensures
            h.lines() == Seq::<HeaderLine>::empty(),
            h@ == Map::<Seq<char>, Seq<char>>::empty(),
    {
        let h = Headers { entries: Vec::new() };
        assert(h.lines() =~= Seq::<HeaderLine>::empty());
        assert(h@ =~= Map::<Seq<char>, Seq<char>>::empty());
        h
    }

    /// How many headers the map holds.
    pub fn len(&self) -> (n: usize)
        ensures
            n == self.lines().len(),
            unique_keys(self.lines()),
    {
        proof {
            use_type_invariant(self);
        }
        self.entries.len()
    }

    fn find(entries: &Vec<HeaderEntry>, key: &String) -> (r: Option<usize>)
        ensures
            match r {
                Some(i) => i < entries.len() && entries[i as int].key@ == key@,
                None => forall|i: int| 0 <= i < entries.len() ==> entries[i].key@ != key@,
            },
    {
        let mut i: usize = 0;
        while i < entries.len()
            invariant
                i <= entries.len(),
                forall|j: int| 0 <= j < i ==> entries[j].key@ != key@,
            decreases entries.len() - i,
        {
            if entries[i].key == *key {
                return Some(i);
            }
            i = i + 1;
        }
        None
    }

    /// Sets the header `name` to `value`. A header of that name, in any
    /// spelling, is overwritten where it stands; otherwise the header is added
    /// at the end.
    pub fn set_header(&mut self, name: &str, value: &str)
        ensures
            final(self).lines() == put_line(old(self).lines(), name@, value@),
            final(self)@ == old(self)@.insert(ascii_lower(name@), value@),
            unique_keys(final(self).lines()),
    {
        proof {
            use_type_invariant(&*self);
            lemma_put_line(self.lines(), name@, value@);
        }
        let key = to_lower(name);
        let entry = HeaderEntry { key: to_lower(name), name: name.to_owned(), value: value.to_owned() };
        let mut entries: Vec<HeaderEntry> = Vec::new();
        std::mem::swap(&mut entries, &mut self.entries);
        let ghost before = entry_lines(entries@);
        let ghost line = HeaderLine { name: name@, value: value@ };
        assert forall|i: int| 0 <= i < entries.len() implies #[trigger] before[i].key()
            == entries[i].key@ by {}
        match Self::find(&entries, &key) {
            Some(i) => {
                proof {
                    assert(before[i as int].key() == key@);
                    assert(has_key(before, line.key()));
                    let p = place_of(before, line.key());
                    assert(p == i);
                }
                entries.set(i, entry);
                assert(entry_lines(entries@) =~= put_line(before, name@, value@));
            },
            None => {
                proof {
                    if has_key(before, line.key()) {
                        let p = place_of(before, line.key());
                        assert(entries[p].key@ == key@);
                    }
                }
                entries.push(entry);
                assert(entry_lines(entries@) =~= put_line(before, name@, value@));
            },
        }
        self.entries = entries;
    }

    /// The value of the header `name`, looked up without regard to case.
    pub fn get_header(&self, name: &str) -> (r: Option<&String>)
        ensures
            match r {
                Some(v) => self@.contains_key(ascii_lower(name@)) && v@ == self@[ascii_lower(
                    name@,
                )],
                None => !self@.contains_key(ascii_lower(name@)),
            },
    {
        proof {
            use_type_invariant(self);
        }
        let key = to_lower(name);
        let ghost lines = self.lines();
        assert forall|i: int| 0 <= i < self.entries.len() implies #[trigger] lines[i].key()
            == self.entries[i].key@ by {}
        match Self::find(&self.entries, &key) {
            Some(i) => {
                proof {
                    assert(lines[i as int].key() == key@);
                    let p = place_of(lines, key@);
                    assert(p == i);
                }
                Some(&self.entries[i].value)
            },
            None => {
                proof {
                    if has_key(lines, key@) {
                        let p = place_of(lines, key@);
                        assert(self.entries[p].key@ == key@);
                    }
                }
                None
            },
        }
    }

    /// Appends to `out` those header lines, in order, that declare the
    /// length of the body (`length` true) or that do not (`length` false).
    fn write_where(&self, out: &mut String, length: bool)
        ensures
            final(out)@ == old(out)@ + lines_text(self.lines(), length),
    {
        proof {
            use_type_invariant(self);
        }
        let ghost lines = self.lines();
        let key = to_lower("Content-Length");
        let mut i: usize = 0;
        assert(lines.subrange(0, 0) =~= Seq::<HeaderLine>::empty());
        assert(out@ =~= old(out)@ + lines_text(lines.subrange(0, 0), length));
        while i < self.entries.len()
            invariant
                i <= self.entries.len(),
                lines == self.lines(),
                lines.len() == self.entries.len(),
                key@ == length_key(),
                forall|j: int|
                    0 <= j < self.entries.len() ==> (#[trigger] self.entries[j]).key@
                        == ascii_lower(self.entries[j].name@),
                out@ == old(out)@ + lines_text(lines.subrange(0, i as int), length),
            decreases self.entries.len() - i,
        {
            let entry = &self.entries[i];
            proof {
                let next = lines.subrange(0, i + 1);
                assert(next.drop_last() =~= lines.subrange(0, i as int));
                assert(next.last() == lines[i as int]);
                assert(lines[i as int].key() == entry.key@);
            }
            if (entry.key == key) == length {
                out.append(entry.name.as_str());
                out.append(": ");
                out.append(entry.value.as_str());
                out.append("\r\n");
                assert(out@ =~= old(out)@ + lines_text(lines.subrange(0, i + 1), length));
            }
            i = i + 1;
        }
        assert(lines.subrange(0, i as int) =~= lines);
    }

    /// Appends the header lines to `out` as they stand in a message: in
    /// their order, but for `Content-Length`, which is written last.
    pub fn write_lines(&self, out: &mut String)
        ensures
            final(out)@ == old(out)@ + header_block(self.lines()),
    {
        self.write_where(out, false);
        self.write_where(out, true);
        assert(final(out)@ =~= old(out)@ + header_block(self.lines()));
    }

    /// A cursor over the headers in order. It hands out each name in lower case.
    pub fn iter(&self) -> (it: HeaderIterator<'_>)
        ensures
            it.rest() == self.lines(),
    {
        let it = HeaderIterator { headers: self, pos: 0 };
        assert(it.rest() =~= self.lines());
        it
    }

    /// Whether every header of `self` is a header of `other` with the same value.
    fn within(&self, other: &Headers) -> (r: bool)
        ensures
            r == forall|k: Seq<char>| #[trigger]
                self@.contains_key(k) ==> other@.contains_key(k) && other@[k] == self@[k],
    {
        proof {
            use_type_invariant(self);
        }
        let ghost lines = self.lines();
        assert forall|i: int| 0 <= i < self.entries.len() implies #[trigger] lines[i].key()
            == self.entries[i].key@ by {}
        let mut i: usize = 0;
        while i < self.entries.len()
            invariant
                i <= self.entries.len(),
                lines == self.lines(),
                lines.len() == self.entries.len(),
                unique_keys(lines),
                forall|j: int|
                    0 <= j < self.entries.len() ==> #[trigger] lines[j].key()
                        == self.entries[j].key@,
                forall|j: int|
                    0 <= j < self.entries.len() ==> (#[trigger] self.entries[j]).key@
                        == ascii_lower(self.entries[j].name@),
                forall|j: int|
                    0 <= j < i ==> other@.contains_key(#[trigger] lines[j].key()) && other@[lines[j].key()]
                        == lines[j].value,
            decreases self.entries.len() - i,
        {
            let entry = &self.entries[i];
            proof {
                lemma_lower_idempotent(entry.name@);
                assert(lines[i as int].key() == entry.key@);
                assert(lines[i as int].value == entry.value@);
            }
            let same = match other.get_header(entry.key.as_str()) {
                Some(v) => *v == entry.value,
                None => false,
            };
            if !same {
                proof {
                    let k = lines[i as int].key();
                    assert(has_key(lines, k));
                    let p = place_of(lines, k);
                    assert(p == i);
                    assert(self@.contains_key(k));
                }
                return false;
            }
            i = i + 1;
        }
        proof {
            assert forall|k: Seq<char>| #[trigger]
                self@.contains_key(k) implies other@.contains_key(k) && other@[k] == self@[k] by {
                let p = place_of(lines, k);
                assert(lines[p].key() == k);
            }
        }
        true
    }
}

impl PartialEq for Headers {
    /// Two header maps are equal when they hold the same values under the same
    /// keys, in whatever order and spelling the names were written.
    fn eq(&self, other: &Headers) -> (r: bool) {
        let r = self.within(other) && other.within(self);
        proof {
            if r {
                assert(self@ =~= other@);
            }
        }
        r
    }
}

impl PartialEqSpecImpl for Headers {
    open spec fn obeys_eq_spec() -> bool {
        true
    }

    open spec fn eq_spec(&self, other: &Headers) -> bool {
        self@ == other@
    }
}

impl Clone for Headers {
    fn clone(&self) -> (h: Headers)
        ensures
            h.lines() == self.lines(),
            h@ == self@,
    {
        proof {
            use_type_invariant(self);
        }
        let mut entries: Vec<HeaderEntry> = Vec::new();
        let mut i: usize = 0;
        while i < self.entries.len()
            invariant
                i <= self.entries.len(),
                entries.len() == i,
                forall|j: int| 0 <= j < i ==> #[trigger] entries[j] == self.entries[j],
            decreases self.entries.len() - i,
        {
            entries.push(self.entries[i].clone());
            i = i + 1;
        }
        assert(entry_lines(entries@) =~= entry_lines(self.entries@));
        Headers { entries }
    }
}

impl Default for Headers {
    fn default() -> (h: Headers)
        ensures
            h.lines() == Seq::<HeaderLine>::empty(),
    {
        Headers::new()
    }
}

/// A cursor over the headers of a map, in their order.
pub struct HeaderIterator<'a> {
    headers: &'a Headers,
    pos: usize,
}

impl<'a> HeaderIterator<'a> {
    /// The lines that the cursor has not yet handed out.
    pub closed spec fn rest(&self) -> Seq<HeaderLine> {
        if self.pos <= self.headers.entries.len() {
            entry_lines(self.headers.entries@).subrange(
                self.pos as int,
                self.headers.entries.len() as int,
            )
        } else {
            Seq::empty()
        }
    }

    /// Hands out the next header, its name in lower case and its value, or
    /// nothing at the end.
    pub fn next(&mut self) -> (r: Option<(&'a String, &'a String)>)
        ensures
            match r {
                Some((name, value)) => {
                    &&& old(self).rest().len() > 0
                    &&& name@ == old(self).rest()[0].key()
                    &&& value@ == old(self).rest()[0].value
                    &&& final(self).rest() == old(self).rest().skip(1)
                },
                None => old(self).rest().len() == 0 && final(self).rest() == old(self).rest(),
            },
    {
        let headers: &'a Headers = self.headers;
        proof {
            use_type_invariant(headers);
        }
        if self.pos < headers.entries.len() {
            let entry = &headers.entries[self.pos];
            self.pos = self.pos + 1;
            assert(final(self).rest() =~= old(self).rest().skip(1));
            Some((&entry.key, &entry.value))
        } else {
            None
        }
    }

    /// How many headers are still to come.
    pub fn len(&self) -> (n: usize)
        ensures
            n == self.rest().len(),
    {
        if self.pos <= self.headers.entries.len() {
            self.headers.entries.len() - self.pos
        } else {
            0
        }
    }
}

} // verus!
