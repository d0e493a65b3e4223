//! Versions of the game: `major.minor.patch[-stage[.build]]`, how they are
//! read from text and written back to it.

use vstd::prelude::*;
use crate::text::{
    all_digits, chars_equal, chars_of, decimal_spec, is_digit, lemma_decimal_digits, lemma_parse_decimal,
    lemma_split_cons, lemma_split_no_sep, parse_u32, parse_u32_spec, push_char, push_chars,
    push_decimal, split_on, split_spec, strip_leading_bound, strip_leading_spec, trim_bounds,
    trim_end_spec, trim_spec, trim_start_spec, is_whitespace_spec, views, copy_range,
};

verus! {

/// The release stage of a version; `Alpha < Beta < Release`.
#[derive(Debug, Clone, Copy, PartialEq, Eq, Structural, Hash, Ord)]
pub enum VersionStage {
    Alpha,
    Beta,
    Release,
}

impl Default for VersionStage {
    /// A version without a stage is a release.
    fn default() -> (r: Self)
        ensures
            r == VersionStage::Release,
    {
        VersionStage::Release
    }
}

/// A version `major.minor.patch[-stage[.build]]`.
#[derive(Debug, Clone, Copy, PartialEq, Eq, Structural, Hash, Ord)]
pub struct Version {
    pub major: u32,
    pub minor: u32,
    pub patch: u32,
    pub stage: VersionStage,
    pub build: u32,
}

/// The version that the launcher ships with.
pub open spec fn default_version() -> Version {
    Version { major: 0, minor: 2, patch: 2, stage: VersionStage::Release, build: 0 }
}

impl Default for Version {
    fn default() -> (r: Self)
        ensures
            r == default_version(),
    {
        Version { major: 0, minor: 2, patch: 2, stage: VersionStage::Release, build: 0 }
    }
}

// ---------------------------------------------------------------------------
// Stage names
// ---------------------------------------------------------------------------

pub open spec fn alpha_chars() -> Seq<char> {
    seq!['a', 'l', 'p', 'h', 'a']
}

pub open spec fn beta_chars() -> Seq<char> {
    seq!['b', 'e', 't', 'a']
}

pub open spec fn release_chars() -> Seq<char> {
    seq!['r', 'e', 'l', 'e', 'a', 's', 'e']
}

/// The stage that a name stands for.
pub open spec fn stage_of_name(s: Seq<char>) -> Option<VersionStage> {
    if s == alpha_chars() {
        Some(VersionStage::Alpha)
    } else if s == beta_chars() {
        Some(VersionStage::Beta)
    } else if s == release_chars() {
        Some(VersionStage::Release)
    } else {
        None
    }
}

fn stage_from_name(s: &Vec<char>) -> (r: Option<VersionStage>)
    ensures
        r == stage_of_name(s@),
{
    let alpha = vec!['a', 'l', 'p', 'h', 'a'];
    let beta = vec!['b', 'e', 't', 'a'];
    let release = vec!['r', 'e', 'l', 'e', 'a', 's', 'e'];
    assert(alpha@ == alpha_chars());
    assert(beta@ == beta_chars());
    assert(release@ == release_chars());
    if chars_equal(s, &alpha) {
        Some(VersionStage::Alpha)
    } else if chars_equal(s, &beta) {
        Some(VersionStage::Beta)
    } else if chars_equal(s, &release) {
        Some(VersionStage::Release)
    } else {
        None
    }
}


// ---------------------------------------------------------------------------
// Reading a version
// ---------------------------------------------------------------------------

/// Why a text is not a version.
#[derive(Debug, Clone, Copy, PartialEq, Eq, Structural)]
pub enum VersionParseError {
    /// Nothing is left after trimming whitespace and leading `v`s.
    Empty,
    /// The part before the first `-` is not three parts separated by `.`.
    Format,
    Major,
    Minor,
    Patch,
    /// The stage is none of `alpha`, `beta`, `release`.
    Stage,
    Build,
}

impl VersionParseError {
    /// The message that reports the error.
    pub open spec fn message_spec(self) -> Seq<char> {
        match self {
            VersionParseError::Empty => "Version string cannot be empty"@,
            VersionParseError::Format => "Version must be in the format major.minor.patch"@,
            VersionParseError::Major => "Invalid major version"@,
            VersionParseError::Minor => "Invalid minor version"@,
            VersionParseError::Patch => "Invalid patch version"@,
            VersionParseError::Stage => "Invalid version stage"@,
            VersionParseError::Build => "Invalid build number"@,
        }
    }

    /// The message that reports the error.
    pub fn message(&self) -> (r: String)
        ensures
            r@ == self.message_spec(),
    {
        match self {
            VersionParseError::Empty => "Version string cannot be empty".to_string(),
            VersionParseError::Format => "Version must be in the format major.minor.patch".to_string(),
            VersionParseError::Major => "Invalid major version".to_string(),
            VersionParseError::Minor => "Invalid minor version".to_string(),
            VersionParseError::Patch => "Invalid patch version".to_string(),
            VersionParseError::Stage => "Invalid version stage".to_string(),
            VersionParseError::Build => "Invalid build number".to_string(),
        }
    }
}

/// What remains of a text once whitespace around it and leading `v`s are removed.
pub open spec fn version_body(s: Seq<char>) -> Seq<char> {
    strip_leading_spec(trim_spec(s), 'v')
}

/// How a text is read as a version: whitespace around it and leading `v`s are
/// dropped; the part before the first `-` must be `major.minor.patch`; the part
/// between the first and a second `-`, if any, is `stage` or `stage.build`
/// (anything after a second `.` there, or after a second `-`, is ignored).
/// Without a stage the version is a release with build 0; without a build the
/// build is 0.
pub open spec fn parse_spec(s: Seq<char>) -> Result<Version, VersionParseError> {
    let t = version_body(s);
    if t.len() == 0 {
        Err(VersionParseError::Empty)
    } else {
        let parts = split_spec(t, '-');
        let numbers = split_spec(parts[0], '.');
        if numbers.len() != 3 {
            Err(VersionParseError::Format)
        } else if parse_u32_spec(numbers[0]) is None {
            Err(VersionParseError::Major)
        } else if parse_u32_spec(numbers[1]) is None {
            Err(VersionParseError::Minor)
        } else if parse_u32_spec(numbers[2]) is None {
            Err(VersionParseError::Patch)
        } else {
            let major = parse_u32_spec(numbers[0]).unwrap();
            let minor = parse_u32_spec(numbers[1]).unwrap();
            let patch = parse_u32_spec(numbers[2]).unwrap();
            if parts.len() <= 1 {
                Ok(Version { major, minor, patch, stage: VersionStage::Release, build: 0 })
            } else {
                let stage_parts = split_spec(parts[1], '.');
                match stage_of_name(stage_parts[0]) {
                    None => Err(VersionParseError::Stage),
                    Some(stage) => if stage_parts.len() <= 1 {
                        Ok(Version { major, minor, patch, stage, build: 0 })
                    } else {
                        match parse_u32_spec(stage_parts[1]) {
                            None => Err(VersionParseError::Build),
                            Some(build) => Ok(Version { major, minor, patch, stage, build }),
                        }
                    },
                }
            }
        }
    }
}

/// Reads a version from text, as `parse_spec` describes.
pub fn parse_version(s: &str) -> (r: Result<Version, VersionParseError>)
    ensures
        r == parse_spec(s@),
{
    let chars = chars_of(s);
    let (a, b) = trim_bounds(&chars);
    let start = strip_leading_bound(&chars, a, b, 'v');
    if start == b {
        return Err(VersionParseError::Empty);
    }
    let body = copy_range(&chars, start, b);
    assert(body@ == version_body(s@));
    let parts = split_on(&body, '-');
    assert(views(parts@)[0] == parts@[0]@);
    let numbers = split_on(&parts[0], '.');
    if numbers.len() != 3 {
        return Err(VersionParseError::Format);
    }
    assert(views(numbers@)[0] == numbers@[0]@);
    assert(views(numbers@)[1] == numbers@[1]@);
    assert(views(numbers@)[2] == numbers@[2]@);
    let major = match parse_u32(&numbers[0]) {
        Some(x) => x,
        None => return Err(VersionParseError::Major),
    };
    let minor = match parse_u32(&numbers[1]) {
        Some(x) => x,
        None => return Err(VersionParseError::Minor),
    };
    let patch = match parse_u32(&numbers[2]) {
        Some(x) => x,
        None => return Err(VersionParseError::Patch),
    };
    if parts.len() <= 1 {
        return Ok(Version { major, minor, patch, stage: VersionStage::default(), build: 0 });
    }
    assert(views(parts@)[1] == parts@[1]@);
    let stage_parts = split_on(&parts[1], '.');
    assert(views(stage_parts@)[0] == stage_parts@[0]@);
    let stage = match stage_from_name(&stage_parts[0]) {
        Some(st) => st,
        None => return Err(VersionParseError::Stage),
    };
    if stage_parts.len() <= 1 {
        return Ok(Version { major, minor, patch, stage, build: 0 });
    }
    assert(views(stage_parts@)[1] == stage_parts@[1]@);
    match parse_u32(&stage_parts[1]) {
        Some(build) => Ok(Version { major, minor, patch, stage, build }),
        None => Err(VersionParseError::Build),
    }
}

impl Version {
    /// Reads a version from text; an error is reported by its message.
    pub fn from_str(s: &str) -> (r: Result<Version, String>)
        ensures
            match parse_spec(s@) {
                Ok(v) => r matches Ok(w) && w == v,
                Err(e) => r matches Err(m) && m@ == e.message_spec(),
            },
    {
        match parse_version(s) {
            Ok(v) => Ok(v),
            Err(e) => Err(e.message()),
        }
    }
}

// ---------------------------------------------------------------------------
// Writing a version
// ---------------------------------------------------------------------------

/// The stage as written after the numbers: `-alpha`, `-beta`, or nothing for a release.
pub open spec fn stage_suffix(stage: VersionStage) -> Seq<char> {
    match stage {
        VersionStage::Alpha => seq!['-'] + alpha_chars(),
        VersionStage::Beta => seq!['-'] + beta_chars(),
        VersionStage::Release => Seq::empty(),
    }
}

/// The build as written at the end: nothing for build 0; otherwise `.build`,
/// preceded by `-release` for a release.
pub open spec fn build_suffix(stage: VersionStage, build: u32) -> Seq<char> {
    if build > 0 {
        (if stage == VersionStage::Release {
            seq!['-'] + release_chars()
        } else {
            Seq::empty()
        }) + seq!['.'] + decimal_spec(build as nat)
    } else {
        Seq::empty()
    }
}

/// The text of a version: `major.minor.patch`, then the stage, then the build.
pub open spec fn display_spec(v: Version) -> Seq<char> {
    decimal_spec(v.major as nat) + seq!['.'] + decimal_spec(v.minor as nat) + seq!['.']
        + decimal_spec(v.patch as nat) + stage_suffix(v.stage) + build_suffix(v.stage, v.build)
}

impl Version {
    /// The text of the version, as `display_spec` describes.
    pub fn to_string(&self) -> (r: String)
        ensures
            r@ == display_spec(*self),
    {
        let mut out = String::new();
        push_decimal(&mut out, self.major);
        push_char(&mut out, '.');
        push_decimal(&mut out, self.minor);
        push_char(&mut out, '.');
        push_decimal(&mut out, self.patch);
        let ghost numbers = out@;
        match self.stage {
            VersionStage::Alpha => {
                push_char(&mut out, '-');
                push_chars(&mut out, &vec!['a', 'l', 'p', 'h', 'a']);
            },
            VersionStage::Beta => {
                push_char(&mut out, '-');
                push_chars(&mut out, &vec!['b', 'e', 't', 'a']);
            },
            VersionStage::Release => {},
        }
        assert(out@ == numbers + stage_suffix(self.stage));
        let ghost staged = out@;
        if self.build > 0 {
            if self.stage == VersionStage::Release {
                push_char(&mut out, '-');
                push_chars(&mut out, &vec!['r', 'e', 'l', 'e', 'a', 's', 'e']);
            }
            push_char(&mut out, '.');
            push_decimal(&mut out, self.build);
        }
        assert(out@ == staged + build_suffix(self.stage, self.build));
        out
    }

    /// The tag of the version, `v` and its text, as release tags and labels show it.
    pub fn tag(&self) -> (r: String)
        ensures
            r@ == seq!['v'] + display_spec(*self),
    {
        let mut out = String::new();
        push_char(&mut out, 'v');
        let text = self.to_string();
        out.append(text.as_str());
        out
    }
}

// ---------------------------------------------------------------------------
// Reading back what was written
// ---------------------------------------------------------------------------

proof fn lemma_no_char_in_digits(s: Seq<char>, c: char)
    requires
        all_digits(s),
        !is_digit(c),
    ensures
        !s.contains(c),
{
    if s.contains(c) {
        let k = choose|k: int| 0 <= k < s.len() && s[k] == c;
        assert(is_digit(s[k]));
    }
}

proof fn lemma_no_char_concat(a: Seq<char>, b: Seq<char>, c: char)
    requires
        !a.contains(c),
        !b.contains(c),
    ensures
        !(a + b).contains(c),
{
    if (a + b).contains(c) {
        let k = choose|k: int| 0 <= k < (a + b).len() && (a + b)[k] == c;
        if k < a.len() {
            assert(a[k] == c);
        } else {
            assert(b[k - a.len()] == c);
        }
    }
}

proof fn lemma_split_decimal(n: u32, sep: char)
    requires
        !is_digit(sep),
    ensures
        split_spec(decimal_spec(n as nat), sep) == seq![decimal_spec(n as nat)],
        !decimal_spec(n as nat).contains(sep),
{
    lemma_decimal_digits(n as nat);
    lemma_no_char_in_digits(decimal_spec(n as nat), sep);
    lemma_split_no_sep(decimal_spec(n as nat), sep);
}

/// The name of a stage read back.
proof fn lemma_stage_names()
    ensures
        stage_of_name(alpha_chars()) == Some(VersionStage::Alpha),
        stage_of_name(beta_chars()) == Some(VersionStage::Beta),
        stage_of_name(release_chars()) == Some(VersionStage::Release),
        !alpha_chars().contains('.'),
        !alpha_chars().contains('-'),
        !beta_chars().contains('.'),
        !beta_chars().contains('-'),
        !release_chars().contains('.'),
        !release_chars().contains('-'),
{
    assert(beta_chars().len() != alpha_chars().len());
    assert(release_chars().len() != alpha_chars().len());
    assert(release_chars().len() != beta_chars().len());
    assert(!alpha_chars().contains('.') && !alpha_chars().contains('-')) by {
        if alpha_chars().contains('.') || alpha_chars().contains('-') {
            let k = choose|k: int| 0 <= k < 5 && (alpha_chars()[k] == '.' || alpha_chars()[k] == '-');
            assert(k == 0 || k == 1 || k == 2 || k == 3 || k == 4);
        }
    }
    assert(!beta_chars().contains('.') && !beta_chars().contains('-')) by {
        if beta_chars().contains('.') || beta_chars().contains('-') {
            let k = choose|k: int| 0 <= k < 4 && (beta_chars()[k] == '.' || beta_chars()[k] == '-');
            assert(k == 0 || k == 1 || k == 2 || k == 3);
        }
    }
    assert(!release_chars().contains('.') && !release_chars().contains('-')) by {
        if release_chars().contains('.') || release_chars().contains('-') {
            let k = choose|k: int| 0 <= k < 7 && (release_chars()[k] == '.' || release_chars()[k] == '-');
            assert(k == 0 || k == 1 || k == 2 || k == 3 || k == 4 || k == 5 || k == 6);
        }
    }
}

/// The text of a version starts with a digit and ends with a digit or a letter,
/// so there is nothing to trim, and no `v` in front.
proof fn lemma_display_body(v: Version)
    ensures
        version_body(display_spec(v)) == display_spec(v),
        version_body(seq!['v'] + display_spec(v)) == display_spec(v),
        display_spec(v).len() > 0,
{
    let d = display_spec(v);
    lemma_decimal_digits(v.major as nat);
    lemma_decimal_digits(v.minor as nat);
    lemma_decimal_digits(v.patch as nat);
    lemma_decimal_digits(v.build as nat);
    let dm = decimal_spec(v.major as nat);
    assert(d[0] == dm[0]);
    assert(is_digit(d[0]));
    assert(!is_whitespace_spec(d[0]));
    assert(trim_start_spec(d) == d);
    // The last character.
    let last = d.last();
    if v.build > 0 {
        let db = decimal_spec(v.build as nat);
        assert(last == db.last());
        assert(is_digit(db[db.len() - 1]));
    } else if v.stage == VersionStage::Release {
        let dp = decimal_spec(v.patch as nat);
        assert(last == dp.last());
        assert(is_digit(dp[dp.len() - 1]));
    } else {
        assert(last == 'a');
    }
    assert(!is_whitespace_spec(last));
    assert(trim_end_spec(d) == d);
    assert(d[0] != 'v');
    assert(strip_leading_spec(d, 'v') == d);
    let vd = seq!['v'] + d;
    assert(vd.drop_first() == d);
    assert(!is_whitespace_spec(vd[0]));
    assert(trim_start_spec(vd) == vd);
    assert(vd.last() == last);
    assert(trim_end_spec(vd) == vd);
}

/// Whitespace in front of a text does not change how it reads.
pub proof fn lemma_leading_whitespace_ignored(c: char, s: Seq<char>)
    requires
        is_whitespace_spec(c),
    ensures
        parse_spec(seq![c] + s) == parse_spec(s),
{
    assert((seq![c] + s).drop_first() == s);
}

/// Reading the text of a version gives the version back.
pub proof fn lemma_parse_display(v: Version)
    ensures
        parse_spec(display_spec(v)) == Ok::<Version, VersionParseError>(v),
        parse_spec(seq!['v'] + display_spec(v)) == Ok::<Version, VersionParseError>(v),
{
    lemma_display_body(v);
    lemma_stage_names();
    let d = display_spec(v);
    let dm = decimal_spec(v.major as nat);
    let dn = decimal_spec(v.minor as nat);
    let dp = decimal_spec(v.patch as nat);
    let db = decimal_spec(v.build as nat);
    assert(!is_digit('.'));
    assert(!is_digit('-'));
    lemma_split_decimal(v.major, '.');
    lemma_split_decimal(v.minor, '.');
    lemma_split_decimal(v.patch, '.');
    lemma_split_decimal(v.build, '.');
    lemma_split_decimal(v.major, '-');
    lemma_split_decimal(v.minor, '-');
    lemma_split_decimal(v.patch, '-');
    lemma_split_decimal(v.build, '-');
    lemma_parse_decimal(v.major);
    lemma_parse_decimal(v.minor);
    lemma_parse_decimal(v.patch);
    lemma_parse_decimal(v.build);
    // The numbers.
    let numbers = dm + seq!['.'] + dn + seq!['.'] + dp;
    assert(!seq!['.'].contains('-')) by {
        assert(seq!['.'][0] == '.');
    }
    lemma_no_char_concat(dm, seq!['.'], '-');
    lemma_no_char_concat(dm + seq!['.'], dn, '-');
    lemma_no_char_concat(dm + seq!['.'] + dn, seq!['.'], '-');
    lemma_no_char_concat(dm + seq!['.'] + dn + seq!['.'], dp, '-');
    lemma_split_cons(dn, '.', dp);
    assert(dm + seq!['.'] + (dn + seq!['.'] + dp) == numbers);
    lemma_split_cons(dm, '.', dn + seq!['.'] + dp);
    assert(split_spec(numbers, '.') == seq![dm, dn, dp]);
    if v.stage == VersionStage::Release && v.build == 0 {
        assert(d == numbers);
        lemma_split_no_sep(numbers, '-');
    } else {
        // The part after the first `-`: the stage name, then the build if any.
        let name = if v.stage == VersionStage::Alpha {
            alpha_chars()
        } else if v.stage == VersionStage::Beta {
            beta_chars()
        } else {
            release_chars()
        };
        let tail = if v.build > 0 {
            seq!['.'] + db
        } else {
            Seq::<char>::empty()
        };
        let rest = name + tail;
        assert(d == numbers + seq!['-'] + rest);
        assert(!seq!['.'].contains('-')) by {
            assert(seq!['.'][0] == '.');
        }
        if v.build > 0 {
            lemma_no_char_concat(seq!['.'], db, '-');
            lemma_split_cons(name, '.', db);
            assert(rest == name + seq!['.'] + db);
        } else {
            assert(rest == name);
            lemma_split_no_sep(name, '.');
        }
        assert(!Seq::<char>::empty().contains('-'));
        lemma_no_char_concat(name, tail, '-');
        lemma_split_no_sep(rest, '-');
        lemma_split_cons(numbers, '-', rest);
        assert(split_spec(d, '-') == seq![numbers, rest]);
    }
}

impl std::str::FromStr for Version {
    type Err = String;

    fn from_str(s: &str) -> (r: Result<Self, Self::Err>)
        ensures
            match parse_spec(s@) {
                Ok(v) => r matches Ok(w) && w == v,
                Err(e) => r matches Err(m) && m@ == e.message_spec(),
            },
    {
        Version::from_str(s)
    }
}

} // verus!
