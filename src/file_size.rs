use vstd::prelude::*;

verus! {

/// Largest byte count classified as bytes.
pub const B_LIMIT: u64 = 1023;
/// Bytes in a kilobyte.
pub const B: u64 = 1024;
/// Largest byte count classified as kilobytes.
pub const KB_LIMIT: u64 = 1048575;
/// Bytes in a megabyte.
pub const KB: u64 = 1048576;
/// Largest byte count classified as megabytes.
pub const MB_LIMIT: u64 = 1073741823;
/// Bytes in a gigabyte.
pub const MB: u64 = 1073741824;
/// Largest byte count classified as gigabytes.
pub const GB_LIMIT: u64 = 1099511627775;
/// Bytes in a terabyte.
pub const GB: u64 = 1099511627776;
/// Largest byte count classified as terabytes.
pub const TB_LIMIT: u64 = 1125899906842623;
/// Bytes in a petabyte.
pub const TB: u64 = 1125899906842624;
/// The petabyte ceiling: this byte count and every larger one are unclassifiable.
pub const PB_LIMIT: u64 = 1152921504606846975;

/// A unit of file size. `Unbounded` only serves as a "no unit filter" choice and
/// is never the result of a classification.
#[derive(Clone, Copy, Debug, PartialEq, Eq, Structural, PartialOrd, Ord)]
pub enum FileSize {
    B,
    KB,
    MB,
    GB,
    TB,
    PB,
    Unbounded,
}

/// Failure to read a size unit from text; holds the text.
#[derive(Debug)]
pub struct ConvError(pub String);

/// The unit a byte count falls in: six contiguous ranges with power-of-1024
/// bounds, nothing from `PB_LIMIT` on.
pub open spec fn classify(v: nat) -> Option<FileSize> {
    if v <= B_LIMIT {
        Some(FileSize::B)
    } else if v <= KB_LIMIT {
        Some(FileSize::KB)
    } else if v <= MB_LIMIT {
        Some(FileSize::MB)
    } else if v <= GB_LIMIT {
        Some(FileSize::GB)
    } else if v <= TB_LIMIT {
        Some(FileSize::TB)
    } else if v < PB_LIMIT {
        Some(FileSize::PB)
    } else {
        None
    }
}

/// The divisor that turns a byte count into a magnitude in unit `u`: one for
/// bytes, else the size of the unit just below `u`.
pub open spec fn divisor(u: FileSize) -> nat {
    match u {
        FileSize::B => 1,
        FileSize::KB => B as nat,
        FileSize::MB => KB as nat,
        FileSize::GB => MB as nat,
        FileSize::TB => GB as nat,
        FileSize::PB => TB as nat,
        FileSize::Unbounded => 0,
    }
}

/// The magnitude of `v` bytes in unit `u`, truncated; none for `Unbounded`.
pub open spec fn magnitude(u: FileSize, v: nat) -> Option<nat> {
    if u is Unbounded {
        None
    } else {
        Some(v / divisor(u))
    }
}

/// The short name of a unit.
pub open spec fn unit_label(u: FileSize) -> Seq<char> {
    match u {
        FileSize::B => "b"@,
        FileSize::KB => "kb"@,
        FileSize::MB => "mb"@,
        FileSize::GB => "gb"@,
        FileSize::TB => "tb"@,
        FileSize::PB => "pb"@,
        FileSize::Unbounded => "unbounded"@,
    }
}

/// Two characters are the same letter when ASCII case is ignored.
pub open spec fn same_char_folded(a: char, b: char) -> bool {
    ||| a as u32 == b as u32
    ||| (65 <= a as u32 <= 90 && a as u32 + 32 == b as u32)
    ||| (65 <= b as u32 <= 90 && b as u32 + 32 == a as u32)
}

/// Two texts are the same when ASCII case is ignored.
pub open spec fn same_folded(a: Seq<char>, b: Seq<char>) -> bool {
    a.len() == b.len() && forall|i: int| 0 <= i < a.len() ==> same_char_folded(#[trigger] a[i], b[i])
}

/// The unit that a piece of text names, if any; case does not matter.
pub open spec fn unit_named(s: Seq<char>) -> Option<FileSize> {
    if same_folded(s, "b"@) {
        Some(FileSize::B)
    } else if same_folded(s, "kb"@) {
        Some(FileSize::KB)
    } else if same_folded(s, "mb"@) {
        Some(FileSize::MB)
    } else if same_folded(s, "gb"@) {
        Some(FileSize::GB)
    } else if same_folded(s, "tb"@) {
        Some(FileSize::TB)
    } else if same_folded(s, "pb"@) {
        Some(FileSize::PB)
    } else if same_folded(s, "unbounded"@) {
        Some(FileSize::Unbounded)
    } else {
        None
    }
}

/// Whether two texts are the same when ASCII case is ignored.
pub fn same_text_folded(a: &str, b: &str) -> (r: bool)
    ensures
        r == same_folded(a@, b@),
{
    let n = a.unicode_len();
    if n != b.unicode_len() {
        return false;
    }
    let mut i: usize = 0;
    while i < n
        invariant
            n == a@.len(),
            n == b@.len(),
            i <= n,
            forall|j: int| 0 <= j < i ==> same_char_folded(#[trigger] a@[j], b@[j]),
        decreases n - i,
    {
        let x = a.get_char(i) as u32;
        let y = b.get_char(i) as u32;
        let same = x == y || (65 <= x && x <= 90 && x + 32 == y) || (65 <= y && y <= 90 && y
            + 32 == x);
        if !same {
            assert(!same_char_folded(a@[i as int], b@[i as int]));
            return false;
        }
        i = i + 1;
    }
    true
}

/// Whether two texts hold the same characters.
pub fn same_text(a: &str, b: &str) -> (r: bool)
    ensures
        r == (a@ == b@),
{
    let n = a.unicode_len();
    if n != b.unicode_len() {
        return false;
    }
    let mut i: usize = 0;
    while i < n
        invariant
            n == a@.len(),
            n == b@.len(),
            i <= n,
            a@.subrange(0, i as int) == b@.subrange(0, i as int),
        decreases n - i,
    {
        if a.get_char(i) != b.get_char(i) {
            return false;
        }
        assert(a@.subrange(0, i + 1) =~= a@.subrange(0, i as int).push(a@[i as int]));
        assert(b@.subrange(0, i + 1) =~= b@.subrange(0, i as int).push(b@[i as int]));
        i = i + 1;
    }
    assert(a@ =~= a@.subrange(0, n as int));
    assert(b@ =~= b@.subrange(0, n as int));
    true
}

impl FileSize {
    /// Classifies a byte count into its unit; `None` from `PB_LIMIT` on.
    pub fn from(value: u64) -> (r: Option<FileSize>)
        ensures
            r == classify(value as nat),
    {
        if value <= B_LIMIT {
            Some(FileSize::B)
        } else if value <= KB_LIMIT {
            Some(FileSize::KB)
        } else if value <= MB_LIMIT {
            Some(FileSize::MB)
        } else if value <= GB_LIMIT {
            Some(FileSize::GB)
        } else if value <= TB_LIMIT {
            Some(FileSize::TB)
        } else if value < PB_LIMIT {
            Some(FileSize::PB)
        } else {
            None
        }
    }

    /// The magnitude of `value` bytes in this unit, truncated toward zero;
    /// `None` for `Unbounded`.
    pub fn sizer(&self, value: u64) -> (r: Option<u64>)
        ensures
            r matches Some(m) ==> magnitude(*self, value as nat) == Some(m as nat),
            r is None <==> magnitude(*self, value as nat) is None,
    {
        match self {
            FileSize::B => Some(value),
            FileSize::KB => Some(value / B),
            FileSize::MB => Some(value / KB),
            FileSize::GB => Some(value / MB),
            FileSize::TB => Some(value / GB),
            FileSize::PB => Some(value / TB),
            FileSize::Unbounded => None,
        }
    }

    /// The short name of the unit: `b`, `kb`, `mb`, `gb`, `tb`, `pb` or `unbounded`.
    pub fn label(&self) -> (r: String)
        ensures
            r@ == unit_label(*self),
    {
        let s = match self {
            FileSize::B => "b",
            FileSize::KB => "kb",
            FileSize::MB => "mb",
            FileSize::GB => "gb",
            FileSize::TB => "tb",
            FileSize::PB => "pb",
            FileSize::Unbounded => "unbounded",
        };
        String::from_str(s)
    }

    /// Reads a unit from its name (`b`, `kb`, `mb`, `gb`, `tb`, `pb`,
    /// `unbounded`), ignoring ASCII case.
    pub fn parse(s: &str) -> (r: Result<FileSize, ConvError>)
        ensures
            r matches Ok(u) ==> unit_named(s@) == Some(u),
            r matches Err(e) ==> unit_named(s@) is None && e.0@ == s@,
            r is Ok <==> unit_named(s@) is Some,
    {
        if same_text_folded(s, "b") {
            Ok(FileSize::B)
        } else if same_text_folded(s, "kb") {
            Ok(FileSize::KB)
        } else if same_text_folded(s, "mb") {
            Ok(FileSize::MB)
        } else if same_text_folded(s, "gb") {
            Ok(FileSize::GB)
        } else if same_text_folded(s, "tb") {
            Ok(FileSize::TB)
        } else if same_text_folded(s, "pb") {
            Ok(FileSize::PB)
        } else if same_text_folded(s, "unbounded") {
            Ok(FileSize::Unbounded)
        } else {
            Err(ConvError(String::from_str(s)))
        }
    }
}

impl ConvError {
    /// A human-readable description of the error.
    pub fn message(&self) -> (r: String)
        ensures
            r@ == "Failed to convert "@ + self.0@ + " to a valid file size"@,
    {
        let mut r = String::from_str("Failed to convert ");
        r.append(self.0.as_str());
        r.append(" to a valid file size");
        r
    }
}

impl std::str::FromStr for FileSize {
    type Err = ConvError;

    fn from_str(s: &str) -> (r: Result<FileSize, ConvError>)
        ensures
            r matches Ok(u) ==> unit_named(s@) == Some(u),
            r matches Err(e) ==> unit_named(s@) is None && e.0@ == s@,
            r is Ok <==> unit_named(s@) is Some,
    {
        FileSize::parse(s)
    }
}

} // verus!
