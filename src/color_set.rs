use vstd::prelude::*;
use vstd::string::*;
use std::collections::HashMap;
use crate::codec::HPixel;
use crate::hex::{hex_u32, parse_hex};

verus! {

broadcast use vstd::std_specs::hash::group_hash_axioms;

/// Why a line of a color database was skipped, as a mathematical value.
pub enum RecordFault {
    EmptyLine,
    MissingName(Seq<char>),
    BadHex(Seq<char>),
}

/// Why a line of a color database was skipped.
#[derive(Clone, Debug, PartialEq, Eq)]
pub enum RecordError {
    /// The line was empty.
    EmptyLine,
    /// The line has no delimiter; it holds this color field only.
    MissingName(String),
    /// The color field is not a hexadecimal number of at most 32 bits.
    BadHex(String),
}

impl View for RecordError {
    type V = RecordFault;

    open spec fn view(&self) -> RecordFault {
        match self {
            RecordError::EmptyLine => RecordFault::EmptyLine,
            RecordError::MissingName(s) => RecordFault::MissingName(s@),
            RecordError::BadHex(s) => RecordFault::BadHex(s@),
        }
    }
}

/// Position of the first `,` in `line`, if any.
pub open spec fn first_comma(line: Seq<char>) -> Option<int> {
    if exists|k: int| 0 <= k < line.len() && line[k] == ',' {
        Some(
            choose|k: int|
                0 <= k < line.len() && line[k] == ',' && forall|j: int|
                    0 <= j < k ==> line[j] != ',',
        )
    } else {
        None
    }
}

/// What a line contributes: the packed color and its name, or why it is skipped.
pub open spec fn record_of(line: Seq<char>) -> Result<(u32, Seq<char>), RecordFault> {
    if line.len() == 0 {
        Err(RecordFault::EmptyLine)
    } else {
        match first_comma(line) {
            None => Err(RecordFault::MissingName(line)),
            Some(k) => {
                let col = line.take(k);
                match hex_u32(col) {
                    None => Err(RecordFault::BadHex(col)),
                    Some(n) => Ok((HPixel::of_packed(n as int).packed() as u32, line.skip(k + 1))),
                }
            },
        }
    }
}

/// The set built from `lines` in order, a later name for a color replacing an earlier one.
pub open spec fn set_of_lines(lines: Seq<Seq<char>>) -> Map<u32, Seq<char>>
    decreases lines.len(),
{
    if lines.len() == 0 {
        Map::empty()
    } else {
        let m = set_of_lines(lines.drop_last());
        match record_of(lines.last()) {
            Ok((k, name)) => m.insert(k, name),
            Err(_) => m,
        }
    }
}

/// The skipped lines of `lines`, in order, each with its position and fault.
pub open spec fn faults_of_lines(lines: Seq<Seq<char>>) -> Seq<(int, RecordFault)>
    decreases lines.len(),
{
    if lines.len() == 0 {
        Seq::empty()
    } else {
        let f = faults_of_lines(lines.drop_last());
        match record_of(lines.last()) {
            Ok(_) => f,
            Err(e) => f.push((lines.len() - 1, e)),
        }
    }
}

pub open spec fn lines_view(lines: Seq<String>) -> Seq<Seq<char>> {
    lines.map_values(|s: String| s@)
}

pub open spec fn faults_view(faults: Seq<(usize, RecordError)>) -> Seq<(int, RecordFault)> {
    faults.map_values(|f: (usize, RecordError)| (f.0 as int, f.1@))
}

/// Splits one database line and decodes its color field.
pub fn parse_record(line: &str) -> (r: Result<(HPixel, String), RecordError>)
    ensures
        match record_of(line@) {
            Ok((k, name)) => r matches Ok((c, s)) && c.packed() == k as int && s@ == name,
            Err(e) => r matches Err(f) && f@ == e,
        },
{
    let n = line.unicode_len();
    if n == 0 {
        return Err(RecordError::EmptyLine);
    }
    let mut k: usize = 0;
    while k < n && line.get_char(k) != ','
        invariant
            k <= n,
            n == line@.len(),
            forall|j: int| 0 <= j < k ==> line@[j] != ',',
        decreases n - k,
    {
        k = k + 1;
    }
    if k == n {
        return Err(RecordError::MissingName(line.to_owned()));
    }
    assert(first_comma(line@) == Some(k as int)) by {
        let c = choose|j: int|
            0 <= j < line@.len() && line@[j] == ',' && forall|i: int|
                0 <= i < j ==> line@[i] != ',';
        assert(line@[k as int] == ',');
        if c < k {
        } else if c > k {
        }
    }
    let col = line.substring_char(0, k);
    let name = line.substring_char(k + 1, n);
    assert(col@ =~= line@.take(k as int));
    assert(name@ =~= line@.skip(k + 1));
    match parse_hex(col) {
        None => Err(RecordError::BadHex(col.to_owned())),
        Some(packed) => Ok((HPixel::from_packed(packed), name.to_owned())),
    }
}

/// A set of named colors.
pub struct ColorSet {
    names: HashMap<u32, String>,
}

impl View for ColorSet {
    /// Each member's packed value, mapped to its name.
    type V = Map<u32, Seq<char>>;

    closed spec fn view(&self) -> Map<u32, Seq<char>> {
        Map::new(|k: u32| self.names@.contains_key(k), |k: u32| self.names@[k]@)
    }
}

impl ColorSet {
    pub open spec fn has(&self, c: HPixel) -> bool {
        self@.contains_key(c.packed() as u32)
    }

    /// The empty set.
    pub fn new() -> (s: ColorSet)
        ensures
            s@ == Map::<u32, Seq<char>>::empty(),
    {
        let s = ColorSet { names: HashMap::new() };
        assert(s@ =~= Map::<u32, Seq<char>>::empty());
        s
    }

    /// Records `name` for `c`, replacing any earlier name.
    pub fn insert(&mut self, c: HPixel, name: String)
        ensures
            final(self)@ == old(self)@.insert(c.packed() as u32, name@),
    {
        let key = c.to_packed();
        let ghost name_view = name@;
        self.names.insert(key, name);
        assert(self@ =~= old(self)@.insert(c.packed() as u32, name_view));
    }

    /// Whether `c` is a member.
    pub fn contains(&self, c: &HPixel) -> (r: bool)
        ensures
            r == self.has(*c),
    {
        let key = c.to_packed();
        self.names.contains_key(&key)
    }

    /// The name recorded for `c`, if it is a member.
    pub fn name_of(&self, c: &HPixel) -> (r: Option<String>)
        ensures
            match r {
                Some(s) => self.has(*c) && s@ == self@[c.packed() as u32],
                None => !self.has(*c),
            },
    {
        let key = c.to_packed();
        match self.names.get(&key) {
            Some(s) => Some(s.clone()),
            None => None,
        }
    }

    /// Number of members.
    pub fn len(&self) -> (n: usize)
        ensures
            n == self@.dom().len(),
    {
        assert(self@.dom() =~= self.names@.dom());
        self.names.len()
    }
}

/// Builds a color set from database lines `<hex color>,<name>`, in order: a
/// later name for a color replaces an earlier one. Lines that cannot be read
/// are skipped and listed, each with its position and the reason.
pub fn hmify(lines: &Vec<String>) -> (r: (ColorSet, Vec<(usize, RecordError)>))
    ensures
        r.0@ == set_of_lines(lines_view(lines@)),
        faults_view(r.1@) == faults_of_lines(lines_view(lines@)),
{
    let mut set = ColorSet::new();
    let mut faults: Vec<(usize, RecordError)> = Vec::new();
    let ghost all = lines_view(lines@);
    let mut i: usize = 0;
    while i < lines.len()
        invariant
            i <= lines.len(),
            all == lines_view(lines@),
            set@ == set_of_lines(all.take(i as int)),
            faults_view(faults@) == faults_of_lines(all.take(i as int)),
        decreases lines.len() - i,
    {
        let ghost pre = all.take(i as int);
        let ghost next = all.take(i + 1);
        assert(next.drop_last() =~= pre);
        assert(next.last() == lines@[i as int]@);
        match parse_record(lines[i].as_str()) {
            Ok((c, name)) => {
                set.insert(c, name);
            },
            Err(e) => {
                let ghost before = faults@;
                faults.push((i, e));
                assert(faults_view(faults@) =~= faults_view(before).push((i as int, e@)));
            },
        }
        i = i + 1;
    }
    assert(all.take(lines.len() as int) =~= all);
    (set, faults)
}

} // verus!
