//! The header index: raw `Name: value` lines turned into a lookup by name.

use vstd::prelude::*;
use crate::text::{find, index_of, is_trimmed, lemma_trimmed, lines, same, trim, trimmed};

verus! {

/// The separator between a header's name and its value.
pub const COLON: u8 = 58;

/// Name and value of one header line: what stands before and after the
/// first colon, each without surrounding white space. A line without a
/// colon has neither.
pub open spec fn split_header(line: Seq<u8>) -> Option<(Seq<u8>, Seq<u8>)> {
    let i = index_of(line, COLON);
    if 0 <= i < line.len() {
        Some((trimmed(line.take(i)), trimmed(line.skip(i + 1))))
    } else {
        None
    }
}

/// Every line has a colon.
pub open spec fn well_formed(ls: Seq<Seq<u8>>) -> bool {
    forall|i: int| 0 <= i < ls.len() ==> (#[trigger] split_header(ls[i])) is Some
}

/// The lines read in order into a map; a later line with the same name
/// takes the place of an earlier one.
pub open spec fn header_map(ls: Seq<Seq<u8>>) -> Map<Seq<u8>, Seq<u8>>
    decreases ls.len(),
{
    if ls.len() == 0 {
        Map::empty()
    } else {
        match split_header(ls.last()) {
            Some((name, value)) => header_map(ls.drop_last()).insert(name, value),
            None => header_map(ls.drop_last()),
        }
    }
}

/// A list of pairs read in order into a map, later pairs winning.
pub open spec fn pairs_map(p: Seq<(Seq<u8>, Seq<u8>)>) -> Map<Seq<u8>, Seq<u8>>
    decreases p.len(),
{
    if p.len() == 0 {
        Map::empty()
    } else {
        pairs_map(p.drop_last()).insert(p.last().0, p.last().1)
    }
}

/// What a vector of pairs holds.
pub open spec fn pairs(v: Seq<(Vec<u8>, Vec<u8>)>) -> Seq<(Seq<u8>, Seq<u8>)> {
    Seq::new(v.len(), |i: int| (v[i].0@, v[i].1@))
}

/// The last pair with a given name decides what the map holds for it.
pub proof fn lemma_pairs_found(p: Seq<(Seq<u8>, Seq<u8>)>, name: Seq<u8>, i: int)
    requires
        0 <= i < p.len(),
        p[i].0 == name,
        forall|j: int| i < j < p.len() ==> p[j].0 != name,
    ensures
        pairs_map(p).contains_key(name),
        pairs_map(p)[name] == p[i].1,
    decreases p.len(),
{
    if i < p.len() - 1 {
        lemma_pairs_found(p.drop_last(), name, i);
    }
}

/// A name that no pair has is not in the map.
pub proof fn lemma_pairs_absent(p: Seq<(Seq<u8>, Seq<u8>)>, name: Seq<u8>)
    requires
        forall|j: int| 0 <= j < p.len() ==> p[j].0 != name,
    ensures
        !pairs_map(p).contains_key(name),
    decreases p.len(),
{
    if p.len() > 0 {
        lemma_pairs_absent(p.drop_last(), name);
    }
}

/// Every name and every value in the map of a list of header lines is
/// free of surrounding white space.
pub proof fn lemma_header_map_trimmed(ls: Seq<Seq<u8>>)
    ensures
        forall|name: Seq<u8>| #[trigger]
            header_map(ls).contains_key(name) ==> is_trimmed(name) && is_trimmed(
                header_map(ls)[name],
            ),
    decreases ls.len(),
{
    if ls.len() > 0 {
        lemma_header_map_trimmed(ls.drop_last());
        let line = ls.last();
        let i = index_of(line, COLON);
        lemma_trimmed(line.take(i));
        lemma_trimmed(line.skip(i + 1));
        let before = header_map(ls.drop_last());
        assert forall|name: Seq<u8>| #[trigger]
            header_map(ls).contains_key(name) implies is_trimmed(name) && is_trimmed(
            header_map(ls)[name],
        ) by {
            match split_header(line) {
                Some((key, _)) => {
                    if name != key {
                        assert(before.contains_key(name));
                    }
                },
                None => {
                    assert(before.contains_key(name));
                },
            }
        }
    }
}

/// A header line without the colon that separates name and value.
#[derive(Debug)]
pub struct MalformedHeader {
    /// Position of the offending line among the header lines.
    pub line: usize,
}

/// Lookup from header name to header value. Names are case-sensitive.
#[derive(Debug)]
pub struct HeaderIndex {
    entries: Vec<(Vec<u8>, Vec<u8>)>,
}

impl View for HeaderIndex {
    type V = Map<Seq<u8>, Seq<u8>>;

    closed spec fn view(&self) -> Map<Seq<u8>, Seq<u8>> {
        pairs_map(pairs(self.entries@))
    }
}

impl HeaderIndex {
    /// The value recorded for `name`, if there is one.
    pub fn get(&self, name: &[u8]) -> (r: Option<&Vec<u8>>)
        ensures
            match r {
                Some(v) => self@.contains_key(name@) && self@[name@] == v@,
                None => !self@.contains_key(name@),
            },
    {
        let mut i: usize = self.entries.len();
        while i > 0
            invariant
                i <= self.entries@.len(),
                forall|j: int| i <= j < self.entries@.len() ==> pairs(self.entries@)[j].0 != name@,
            decreases i,
        {
            i -= 1;
            if same(self.entries[i].0.as_slice(), name) {
                proof {
                    lemma_pairs_found(pairs(self.entries@), name@, i as int);
                }
                return Some(&self.entries[i].1);
            }
        }
        proof {
            lemma_pairs_absent(pairs(self.entries@), name@);
        }
        None
    }
}

/// Splits one header line at its first colon and trims both parts.
pub fn parse_header(line: &[u8]) -> (r: Option<(Vec<u8>, Vec<u8>)>)
    ensures
        match r {
            Some((name, value)) => split_header(line@) == Some((name@, value@)),
            None => split_header(line@) is None,
        },
{
    let i: usize = find(line, COLON);
    if i < line.len() {
        let name = trim(vstd::slice::slice_subrange(line, 0, i));
        let value = trim(vstd::slice::slice_subrange(line, i + 1, line.len()));
        assert(line@.take(i as int) =~= line@.subrange(0, i as int));
        assert(line@.skip(i + 1) =~= line@.subrange(i + 1, line@.len() as int));
        Some((name, value))
    } else {
        None
    }
}

/// Builds the header index of a request.
///
/// Succeeds exactly when every line has a colon; the index then maps each
/// trimmed name to its trimmed value, the last line of a name winning.
/// Otherwise the error names the first line without a colon.
pub fn parse_headers(headers: &Vec<Vec<u8>>) -> (r: Result<HeaderIndex, MalformedHeader>)
    ensures
        match r {
            Ok(index) => {
                &&& well_formed(lines(headers@))
                &&& index@ == header_map(lines(headers@))
                &&& forall|name: Seq<u8>| #[trigger]
                    index@.contains_key(name) ==> is_trimmed(name) && is_trimmed(index@[name])
            },
            Err(e) => {
                &&& !well_formed(lines(headers@))
                &&& e.line < headers@.len()
                &&& split_header(headers@[e.line as int]@) is None
                &&& well_formed(lines(headers@).take(e.line as int))
            },
        },
{
    let mut entries: Vec<(Vec<u8>, Vec<u8>)> = Vec::new();
    let mut i: usize = 0;
    while i < headers.len()
        invariant
            i <= headers@.len(),
            well_formed(lines(headers@).take(i as int)),
            pairs_map(pairs(entries@)) == header_map(lines(headers@).take(i as int)),
        decreases headers@.len() - i,
    {
        let ghost before = entries@;
        match parse_header(headers[i].as_slice()) {
            Some((name, value)) => {
                entries.push((name, value));
            },
            None => {
                assert(lines(headers@)[i as int] == headers@[i as int]@);
                return Err(MalformedHeader { line: i });
            },
        }
        proof {
            let ls = lines(headers@);
            assert(ls.take(i + 1).drop_last() =~= ls.take(i as int));
            assert(ls.take(i + 1).last() == ls[i as int]);
            assert(pairs(entries@).drop_last() =~= pairs(before));
            assert forall|j: int| 0 <= j < i + 1 implies (#[trigger] split_header(
                ls.take(i + 1)[j],
            )) is Some by {
                if j < i {
                    assert(ls.take(i as int)[j] == ls[j]);
                }
            }
        }
        i += 1;
    }
    assert(lines(headers@).take(i as int) =~= lines(headers@));
    proof {
        lemma_header_map_trimmed(lines(headers@));
    }
    Ok(HeaderIndex { entries })
}

} // verus!
