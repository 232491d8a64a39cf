//! Interpreter versions and the fixed catalog of versions the system is
//! willing to consider when matching releases to interpreters.
//!
//! A version is written as a short numeric-dot string, `major.minor` or
//! `major.minor.patch`, each component a run of one to nine ASCII digits.
//! Parsing is total over that grammar and rejects everything else.

use vstd::prelude::*;

verus! {

/// A semantic interpreter version.  A two-component string such as `"3.10"`
/// parses with a patch level of zero.
#[derive(Clone, Copy, Debug, PartialEq, Eq, Structural, Hash)]
pub struct InterpreterVersion {
    pub major: u32,
    pub minor: u32,
    pub patch: u32,
}

/// Whether `c` is one of the ten ASCII digits.
pub open spec fn is_ascii_digit(c: char) -> bool {
    48 <= c as u32 <= 57
}

/// The numeric value of an ASCII digit.
pub open spec fn digit_val(c: char) -> nat {
    ((c as u32) - 48) as nat
}

/// Whether every character of `s` is an ASCII digit.
pub open spec fn all_digits(s: Seq<char>) -> bool {
    forall|i: int| 0 <= i < s.len() ==> is_ascii_digit(s[i])
}

/// A well-formed version component: one to nine ASCII digits.  Nine digits
/// keep every component value comfortably inside `u32`.
pub open spec fn component_wf(s: Seq<char>) -> bool {
    1 <= s.len() <= 9 && all_digits(s)
}

/// The number a run of ASCII digits denotes, read most significant first.
pub open spec fn component_val(s: Seq<char>) -> nat
    decreases s.len(),
{
    if s.len() == 0 {
        0
    } else {
        component_val(s.drop_last()) * 10 + digit_val(s.last())
    }
}

/// Ten to the `n`th power.
spec fn pow10(n: nat) -> nat
    decreases n,
{
    if n == 0 {
        1
    } else {
        10 * pow10((n - 1) as nat)
    }
}

/// A digit run of length `n` denotes a value below `pow10(n)`.
proof fn lemma_component_val_bound(s: Seq<char>)
    requires
        all_digits(s),
    ensures
        component_val(s) < pow10(s.len()),
    decreases s.len(),
{
    if s.len() > 0 {
        assert(all_digits(s.drop_last()));
        lemma_component_val_bound(s.drop_last());
        assert(digit_val(s.last()) <= 9);
    }
}

/// `pow10` is monotone.
proof fn lemma_pow10_monotone(m: nat, n: nat)
    requires
        m <= n,
    ensures
        pow10(m) <= pow10(n),
    decreases n,
{
    if m < n {
        lemma_pow10_monotone(m, (n - 1) as nat);
        assert(pow10((n - 1) as nat) >= 1) by {
            lemma_pow10_pos((n - 1) as nat);
        }
    }
}

/// `pow10` is positive.
proof fn lemma_pow10_pos(n: nat)
    ensures
        pow10(n) >= 1,
    decreases n,
{
    if n > 0 {
        lemma_pow10_pos((n - 1) as nat);
    }
}

/// Nine-digit components stay below ten to the ninth.
proof fn lemma_pow10_8()
    ensures
        pow10(8) == 100000000,
{
    assert(pow10(0) == 1);
    assert(pow10(1) == 10);
    assert(pow10(2) == 100);
    assert(pow10(3) == 1000);
    assert(pow10(4) == 10000);
    assert(pow10(5) == 100000);
    assert(pow10(6) == 1000000);
    assert(pow10(7) == 10000000);
    assert(pow10(8) == 100000000);
}

/// The components of `s`, split at every `'.'`: an empty string has one
/// empty component, a trailing `'.'` opens a new empty component, and any
/// other character extends the last component.
pub open spec fn split_dots(s: Seq<char>) -> Seq<Seq<char>>
    decreases s.len(),
{
    if s.len() == 0 {
        seq![Seq::empty()]
    } else if s.last() == '.' {
        split_dots(s.drop_last()).push(Seq::empty())
    } else {
        let p = split_dots(s.drop_last());
        p.update(p.len() - 1, p.last().push(s.last()))
    }
}

/// A split always has at least one component.
proof fn lemma_split_len_pos(s: Seq<char>)
    ensures
        split_dots(s).len() >= 1,
    decreases s.len(),
{
    if s.len() > 0 {
        lemma_split_len_pos(s.drop_last());
    }
}

/// Appending one character either opens a new empty component (a dot) or
/// extends the last component (anything else).
proof fn lemma_split_push(s: Seq<char>, c: char)
    ensures
        c == '.' ==> split_dots(s.push(c)) == split_dots(s).push(Seq::<char>::empty()),
        c != '.' ==> split_dots(s.push(c)) == split_dots(s).update(
            split_dots(s).len() - 1,
            split_dots(s).last().push(c),
        ),
{
    assert(s.push(c).len() == s.len() + 1);
    assert(s.push(c).last() == c);
    assert(s.push(c).drop_last() =~= s);
}

/// Reading further characters never disturbs a completed component, and
/// only ever extends the open (last) component of the prefix in place.
proof fn lemma_split_extend(s: Seq<char>, t: Seq<char>)
    ensures
        split_dots(s + t).len() >= split_dots(s).len(),
        forall|k: int|
            0 <= k < split_dots(s).len() - 1 ==> split_dots(s + t)[k] == split_dots(s)[k],
        split_dots(s + t)[split_dots(s).len() - 1].len() >= split_dots(s).last().len(),
        forall|j: int|
            0 <= j < split_dots(s).last().len() ==> split_dots(s + t)[split_dots(s).len() - 1][j]
                == split_dots(s).last()[j],
    decreases t.len(),
{
    lemma_split_len_pos(s);
    if t.len() == 0 {
        assert(s + t =~= s);
    } else {
        let t1 = t.drop_last();
        let c = t.last();
        assert(s + t =~= (s + t1).push(c));
        lemma_split_extend(s, t1);
        lemma_split_len_pos(s + t1);
        lemma_split_push(s + t1, c);
        let p = split_dots(s);
        let m = split_dots(s + t1);
        let q = split_dots(s + t);
        if c == '.' {
            assert(q == m.push(Seq::<char>::empty()));
            assert(forall|k: int| 0 <= k < m.len() ==> q[k] == m[k]);
        } else {
            assert(q == m.update(m.len() - 1, m.last().push(c)));
            assert(forall|k: int| 0 <= k < m.len() - 1 ==> q[k] == m[k]);
            assert(q[m.len() - 1] == m.last().push(c));
            assert(forall|j: int| 0 <= j < m.last().len() ==> m.last().push(c)[j] == m.last()[j]);
        }
    }
}

/// A well-formed version string: two or three dot-separated components,
/// each a run of one to nine ASCII digits.
pub open spec fn version_str_wf(s: Seq<char>) -> bool {
    let p = split_dots(s);
    (p.len() == 2 || p.len() == 3) && (forall|i: int| 0 <= i < p.len() ==> component_wf(p[i]))
}

/// The version a well-formed string denotes; a missing third component is a
/// patch level of zero.
pub open spec fn spec_version_of(s: Seq<char>) -> InterpreterVersion {
    let p = split_dots(s);
    InterpreterVersion {
        major: component_val(p[0]) as u32,
        minor: component_val(p[1]) as u32,
        patch: if p.len() == 3 {
            component_val(p[2]) as u32
        } else {
            0u32
        },
    }
}

impl InterpreterVersion {
    /// Builds a version from its three numeric parts.
    pub fn new(major: u32, minor: u32, patch: u32) -> (r: InterpreterVersion)
        ensures
            r == (InterpreterVersion { major, minor, patch }),
    {
        InterpreterVersion { major, minor, patch }
    }

    /// Parses a numeric-dot version string, `major.minor` or
    /// `major.minor.patch`.  Returns `None`, never a panic, on anything
    /// outside that grammar: a missing or empty component, a component of
    /// more than nine digits, a fourth component, or a non-digit character.
    pub fn from_str2(s: &str) -> (r: Option<InterpreterVersion>)
        ensures
            r is Some <==> version_str_wf(s@),
            version_str_wf(s@) ==> r == Some(spec_version_of(s@)),
    {
        let n: usize = s.unicode_len();
        let mut v0: u32 = 0;
        let mut v1: u32 = 0;
        let mut v2: u32 = 0;
        let mut cnt: usize = 1;
        let mut cur_len: usize = 0;
        let mut i: usize = 0;
        proof {
            assert(s@.subrange(0, 0) =~= Seq::<char>::empty());
        }
        while i < n
            invariant
                n == s@.len(),
                i <= n,
                1 <= cnt <= 3,
                cur_len <= 9,
                ({
                    let p = split_dots(s@.subrange(0, i as int));
                    &&& cnt == p.len()
                    &&& cur_len == p.last().len()
                    &&& all_digits(p.last())
                    &&& (forall|k: int| 0 <= k < cnt - 1 ==> component_wf(p[k]))
                    &&& v0 == component_val(p[0])
                    &&& (cnt >= 2 ==> v1 == component_val(p[1]))
                    &&& (cnt == 3 ==> v2 == component_val(p[2]))
                }),
            decreases n - i,
        {
            let c = s.get_char(i);
            let ghost pre = s@.subrange(0, i as int);
            let ghost pre2 = s@.subrange(0, i as int + 1);
            let ghost rest = s@.subrange(i as int + 1, n as int);
            proof {
                assert(pre2 =~= pre.push(s@[i as int]));
                assert(pre2 + rest =~= s@);
                lemma_split_len_pos(pre);
                lemma_split_push(pre, s@[i as int]);
            }
            if c == '.' {
                if cur_len == 0 {
                    proof {
                        let p = split_dots(pre);
                        let p2 = split_dots(pre2);
                        assert(p2 == p.push(Seq::<char>::empty()));
                        lemma_split_extend(pre2, rest);
                        assert(split_dots(s@)[cnt - 1] == p2[cnt - 1]);
                        assert(p2[cnt - 1] == p.last());
                        assert(!component_wf(split_dots(s@)[cnt - 1]));
                    }
                    return None;
                }
                if cnt == 3 {
                    proof {
                        let p2 = split_dots(pre2);
                        assert(p2.len() == 4);
                        lemma_split_extend(pre2, rest);
                        assert(split_dots(s@).len() >= 4);
                    }
                    return None;
                }
                cnt += 1;
                if cnt == 2 {
                    v1 = 0;
                } else {
                    v2 = 0;
                }
                cur_len = 0;
                proof {
                    let p = split_dots(pre);
                    let p2 = split_dots(pre2);
                    assert(p2 == p.push(Seq::<char>::empty()));
                    assert(p2[cnt - 2] == p.last());
                    assert(forall|k: int| 0 <= k < p.len() ==> p2[k] == p[k]);
                }
            } else {
                let cu: u32 = c as u32;
                if cu < 48 || cu > 57 {
                    proof {
                        let p = split_dots(pre);
                        let p2 = split_dots(pre2);
                        assert(p2 == p.update(p.len() - 1, p.last().push(s@[i as int])));
                        lemma_split_extend(pre2, rest);
                        let bad = split_dots(s@)[cnt - 1];
                        assert(p2.last() == p.last().push(s@[i as int]));
                        assert(p2.last()[cur_len as int] == s@[i as int]);
                        assert(bad.len() >= cur_len + 1 && bad[cur_len as int] == s@[i as int]);
                        assert(!component_wf(bad));
                    }
                    return None;
                }
                if cur_len == 9 {
                    proof {
                        let p = split_dots(pre);
                        let p2 = split_dots(pre2);
                        assert(p2 == p.update(p.len() - 1, p.last().push(s@[i as int])));
                        lemma_split_extend(pre2, rest);
                        assert(p2.last().len() == 10);
                        assert(split_dots(s@)[cnt - 1].len() >= 10);
                        assert(!component_wf(split_dots(s@)[cnt - 1]));
                    }
                    return None;
                }
                proof {
                    let p = split_dots(pre);
                    lemma_component_val_bound(p.last());
                    lemma_pow10_monotone(p.last().len(), 8);
                    lemma_pow10_8();
                }
                let d: u32 = cu - 48;
                if cnt == 1 {
                    v0 = v0 * 10 + d;
                } else if cnt == 2 {
                    v1 = v1 * 10 + d;
                } else {
                    v2 = v2 * 10 + d;
                }
                cur_len += 1;
                proof {
                    let p = split_dots(pre);
                    let p2 = split_dots(pre2);
                    let ext = p.last().push(s@[i as int]);
                    assert(p2 == p.update(p.len() - 1, ext));
                    assert(ext.drop_last() =~= p.last());
                    assert(component_val(ext) == component_val(p.last()) * 10 + digit_val(
                        s@[i as int],
                    ));
                    assert(forall|j: int| 0 <= j < p.last().len() ==> ext[j] == p.last()[j]);
                    assert(all_digits(ext));
                    assert(forall|k: int| 0 <= k < p.len() - 1 ==> p2[k] == p[k]);
                }
            }
            i += 1;
        }
        proof {
            assert(s@.subrange(0, n as int) =~= s@);
        }
        if cur_len == 0 {
            return None;
        }
        if cnt == 1 {
            return None;
        }
        proof {
            let p = split_dots(s@);
            assert(component_wf(p[cnt - 1]));
            assert(forall|k: int| 0 <= k < p.len() ==> component_wf(p[k]));
            assert(version_str_wf(s@));
        }
        if cnt == 3 {
            Some(InterpreterVersion { major: v0, minor: v1, patch: v2 })
        } else {
            Some(InterpreterVersion { major: v0, minor: v1, patch: 0 })
        }
    }
}

/// Lexicographic order on versions: by major, then minor, then patch.
pub open spec fn spec_version_lt(a: InterpreterVersion, b: InterpreterVersion) -> bool {
    a.major < b.major || (a.major == b.major && (a.minor < b.minor || (a.minor == b.minor
        && a.patch < b.patch)))
}

impl InterpreterVersion {
    /// Compares two versions lexicographically: by major, then minor, then
    /// patch.
    pub fn lt(&self, other: &InterpreterVersion) -> (r: bool)
        ensures
            r == spec_version_lt(*self, *other),
    {
        self.major < other.major || (self.major == other.major && (self.minor < other.minor
            || (self.minor == other.minor && self.patch < other.patch)))
    }
}

/// The fixed catalog of interpreter versions the system is willing to
/// consider: Python 2.0 through 2.7 and 3.3 through 3.12.  A static
/// compatibility table, kept in sync with reality by maintenance.
pub open spec fn spec_py_version_catalog() -> Seq<InterpreterVersion> {
    seq![
        InterpreterVersion { major: 2, minor: 0, patch: 0 },
        InterpreterVersion { major: 2, minor: 1, patch: 0 },
        InterpreterVersion { major: 2, minor: 2, patch: 0 },
        InterpreterVersion { major: 2, minor: 3, patch: 0 },
        InterpreterVersion { major: 2, minor: 4, patch: 0 },
        InterpreterVersion { major: 2, minor: 5, patch: 0 },
        InterpreterVersion { major: 2, minor: 6, patch: 0 },
        InterpreterVersion { major: 2, minor: 7, patch: 0 },
        InterpreterVersion { major: 3, minor: 3, patch: 0 },
        InterpreterVersion { major: 3, minor: 4, patch: 0 },
        InterpreterVersion { major: 3, minor: 5, patch: 0 },
        InterpreterVersion { major: 3, minor: 6, patch: 0 },
        InterpreterVersion { major: 3, minor: 7, patch: 0 },
        InterpreterVersion { major: 3, minor: 8, patch: 0 },
        InterpreterVersion { major: 3, minor: 9, patch: 0 },
        InterpreterVersion { major: 3, minor: 10, patch: 0 },
        InterpreterVersion { major: 3, minor: 11, patch: 0 },
        InterpreterVersion { major: 3, minor: 12, patch: 0 },
    ]
}

/// Produces the catalog of supported interpreter versions, in order, with
/// no input and no failure mode.
pub fn possible_py_versions() -> (r: Vec<InterpreterVersion>)
    ensures
        r@ == spec_py_version_catalog(),
{
    let mut v: Vec<InterpreterVersion> = Vec::new();
    v.push(InterpreterVersion { major: 2, minor: 0, patch: 0 });
    v.push(InterpreterVersion { major: 2, minor: 1, patch: 0 });
    v.push(InterpreterVersion { major: 2, minor: 2, patch: 0 });
    v.push(InterpreterVersion { major: 2, minor: 3, patch: 0 });
    v.push(InterpreterVersion { major: 2, minor: 4, patch: 0 });
    v.push(InterpreterVersion { major: 2, minor: 5, patch: 0 });
    v.push(InterpreterVersion { major: 2, minor: 6, patch: 0 });
    v.push(InterpreterVersion { major: 2, minor: 7, patch: 0 });
    v.push(InterpreterVersion { major: 3, minor: 3, patch: 0 });
    v.push(InterpreterVersion { major: 3, minor: 4, patch: 0 });
    v.push(InterpreterVersion { major: 3, minor: 5, patch: 0 });
    v.push(InterpreterVersion { major: 3, minor: 6, patch: 0 });
    v.push(InterpreterVersion { major: 3, minor: 7, patch: 0 });
    v.push(InterpreterVersion { major: 3, minor: 8, patch: 0 });
    v.push(InterpreterVersion { major: 3, minor: 9, patch: 0 });
    v.push(InterpreterVersion { major: 3, minor: 10, patch: 0 });
    v.push(InterpreterVersion { major: 3, minor: 11, patch: 0 });
    v.push(InterpreterVersion { major: 3, minor: 12, patch: 0 });
    proof {
        assert(v@ =~= spec_py_version_catalog());
    }
    v
}

/// Whether `s` is free of dots.  Digit runs are; this is what makes the
/// dot-split of a version string unambiguous.
spec fn dotless(s: Seq<char>) -> bool {
    forall|i: int| 0 <= i < s.len() ==> s[i] != '.'
}

/// A dotless string is one single component.
proof fn lemma_split_dotless(s: Seq<char>)
    requires
        dotless(s),
    ensures
        split_dots(s).len() == 1,
        split_dots(s)[0] == s,
    decreases s.len(),
{
    if s.len() == 0 {
        assert(split_dots(s)[0] =~= s);
    } else {
        let t = s.drop_last();
        assert(dotless(t));
        lemma_split_dotless(t);
        assert(split_dots(s)[0] =~= s);
    }
}

/// Appending a dotless tail only lengthens the open component.
proof fn lemma_split_append_dotless(s: Seq<char>, b: Seq<char>)
    requires
        dotless(b),
    ensures
        split_dots(s + b).len() == split_dots(s).len(),
        split_dots(s + b).last() == split_dots(s).last() + b,
        forall|k: int|
            0 <= k < split_dots(s).len() - 1 ==> split_dots(s + b)[k] == split_dots(s)[k],
    decreases b.len(),
{
    lemma_split_len_pos(s);
    if b.len() == 0 {
        assert(s + b =~= s);
        assert(split_dots(s).last() + b =~= split_dots(s).last());
    } else {
        let b1 = b.drop_last();
        let c = b.last();
        assert(dotless(b1));
        lemma_split_append_dotless(s, b1);
        assert(s + b =~= (s + b1).push(c));
        lemma_split_push(s + b1, c);
        lemma_split_len_pos(s + b1);
        assert(c != '.');
        assert(split_dots(s + b).last() =~= split_dots(s).last() + b);
    }
}

/// A single digit is a well-formed component and denotes its digit value.
proof fn lemma_component_one_digit(c: char)
    requires
        is_ascii_digit(c),
    ensures
        component_wf(seq![c]),
        component_val(seq![c]) == digit_val(c),
{
    assert(seq![c].drop_last() =~= Seq::<char>::empty());
    assert(component_val(Seq::<char>::empty()) == 0);
    assert(seq![c].last() == c);
}

/// Two digits are a well-formed component and denote their two-digit value.
proof fn lemma_component_two_digits(c: char, d: char)
    requires
        is_ascii_digit(c),
        is_ascii_digit(d),
    ensures
        component_wf(seq![c, d]),
        component_val(seq![c, d]) == 10 * digit_val(c) + digit_val(d),
{
    assert(seq![c, d].drop_last() =~= seq![c]);
    lemma_component_one_digit(c);
    assert(seq![c, d].last() == d);
}

/// Gluing two well-formed components with a dot yields a well-formed
/// two-component version string denoting those component values, with a
/// patch level of zero.
proof fn lemma_two_component_version(a: Seq<char>, b: Seq<char>)
    requires
        component_wf(a),
        component_wf(b),
        component_val(a) <= u32::MAX,
        component_val(b) <= u32::MAX,
    ensures
        version_str_wf(a + seq!['.'] + b),
        spec_version_of(a + seq!['.'] + b) == (InterpreterVersion {
            major: component_val(a) as u32,
            minor: component_val(b) as u32,
            patch: 0u32,
        }),
{
    assert(dotless(a));
    assert(dotless(b));
    let s1 = a.push('.');
    lemma_split_dotless(a);
    lemma_split_push(a, '.');
    assert(split_dots(s1).len() == 2);
    assert(split_dots(s1)[0] == a);
    assert(split_dots(s1)[1] =~= Seq::<char>::empty());
    let s = a + seq!['.'] + b;
    assert(s =~= s1 + b);
    lemma_split_append_dotless(s1, b);
    let p = split_dots(s);
    assert(p.len() == 2);
    assert(p[0] == a);
    assert(p[1] == split_dots(s1)[1] + b);
    assert(p[1] =~= b);
}

/// Every one of the eighteen catalog version strings parses successfully,
/// and to exactly the corresponding catalog entry: for the fixed catalog,
/// parsing is infallible and agrees with the table.
pub proof fn lemma_catalog_strings_parse()
    ensures
        version_str_wf("2.0"@) && spec_version_of("2.0"@) == spec_py_version_catalog()[0],
        version_str_wf("2.1"@) && spec_version_of("2.1"@) == spec_py_version_catalog()[1],
        version_str_wf("2.2"@) && spec_version_of("2.2"@) == spec_py_version_catalog()[2],
        version_str_wf("2.3"@) && spec_version_of("2.3"@) == spec_py_version_catalog()[3],
        version_str_wf("2.4"@) && spec_version_of("2.4"@) == spec_py_version_catalog()[4],
        version_str_wf("2.5"@) && spec_version_of("2.5"@) == spec_py_version_catalog()[5],
        version_str_wf("2.6"@) && spec_version_of("2.6"@) == spec_py_version_catalog()[6],
        version_str_wf("2.7"@) && spec_version_of("2.7"@) == spec_py_version_catalog()[7],
        version_str_wf("3.3"@) && spec_version_of("3.3"@) == spec_py_version_catalog()[8],
        version_str_wf("3.4"@) && spec_version_of("3.4"@) == spec_py_version_catalog()[9],
        version_str_wf("3.5"@) && spec_version_of("3.5"@) == spec_py_version_catalog()[10],
        version_str_wf("3.6"@) && spec_version_of("3.6"@) == spec_py_version_catalog()[11],
        version_str_wf("3.7"@) && spec_version_of("3.7"@) == spec_py_version_catalog()[12],
        version_str_wf("3.8"@) && spec_version_of("3.8"@) == spec_py_version_catalog()[13],
        version_str_wf("3.9"@) && spec_version_of("3.9"@) == spec_py_version_catalog()[14],
        version_str_wf("3.10"@) && spec_version_of("3.10"@) == spec_py_version_catalog()[15],
        version_str_wf("3.11"@) && spec_version_of("3.11"@) == spec_py_version_catalog()[16],
        version_str_wf("3.12"@) && spec_version_of("3.12"@) == spec_py_version_catalog()[17],
{
    lemma_component_one_digit('0');
    lemma_component_one_digit('1');
    lemma_component_one_digit('2');
    lemma_component_one_digit('3');
    lemma_component_one_digit('4');
    lemma_component_one_digit('5');
    lemma_component_one_digit('6');
    lemma_component_one_digit('7');
    lemma_component_one_digit('8');
    lemma_component_one_digit('9');
    lemma_component_two_digits('1', '0');
    lemma_component_two_digits('1', '1');
    lemma_component_two_digits('1', '2');
    reveal_strlit("2.0");
    assert("2.0"@ =~= seq!['2'] + seq!['.'] + seq!['0']);
    lemma_two_component_version(seq!['2'], seq!['0']);
    reveal_strlit("2.1");
    assert("2.1"@ =~= seq!['2'] + seq!['.'] + seq!['1']);
    lemma_two_component_version(seq!['2'], seq!['1']);
    reveal_strlit("2.2");
    assert("2.2"@ =~= seq!['2'] + seq!['.'] + seq!['2']);
    lemma_two_component_version(seq!['2'], seq!['2']);
    reveal_strlit("2.3");
    assert("2.3"@ =~= seq!['2'] + seq!['.'] + seq!['3']);
    lemma_two_component_version(seq!['2'], seq!['3']);
    reveal_strlit("2.4");
    assert("2.4"@ =~= seq!['2'] + seq!['.'] + seq!['4']);
    lemma_two_component_version(seq!['2'], seq!['4']);
    reveal_strlit("2.5");
    assert("2.5"@ =~= seq!['2'] + seq!['.'] + seq!['5']);
    lemma_two_component_version(seq!['2'], seq!['5']);
    reveal_strlit("2.6");
    assert("2.6"@ =~= seq!['2'] + seq!['.'] + seq!['6']);
    lemma_two_component_version(seq!['2'], seq!['6']);
    reveal_strlit("2.7");
    assert("2.7"@ =~= seq!['2'] + seq!['.'] + seq!['7']);
    lemma_two_component_version(seq!['2'], seq!['7']);
    reveal_strlit("3.3");
    assert("3.3"@ =~= seq!['3'] + seq!['.'] + seq!['3']);
    lemma_two_component_version(seq!['3'], seq!['3']);
    reveal_strlit("3.4");
    assert("3.4"@ =~= seq!['3'] + seq!['.'] + seq!['4']);
    lemma_two_component_version(seq!['3'], seq!['4']);
    reveal_strlit("3.5");
    assert("3.5"@ =~= seq!['3'] + seq!['.'] + seq!['5']);
    lemma_two_component_version(seq!['3'], seq!['5']);
    reveal_strlit("3.6");
    assert("3.6"@ =~= seq!['3'] + seq!['.'] + seq!['6']);
    lemma_two_component_version(seq!['3'], seq!['6']);
    reveal_strlit("3.7");
    assert("3.7"@ =~= seq!['3'] + seq!['.'] + seq!['7']);
    lemma_two_component_version(seq!['3'], seq!['7']);
    reveal_strlit("3.8");
    assert("3.8"@ =~= seq!['3'] + seq!['.'] + seq!['8']);
    lemma_two_component_version(seq!['3'], seq!['8']);
    reveal_strlit("3.9");
    assert("3.9"@ =~= seq!['3'] + seq!['.'] + seq!['9']);
    lemma_two_component_version(seq!['3'], seq!['9']);
    reveal_strlit("3.10");
    assert("3.10"@ =~= seq!['3'] + seq!['.'] + seq!['1', '0']);
    lemma_two_component_version(seq!['3'], seq!['1', '0']);
    reveal_strlit("3.11");
    assert("3.11"@ =~= seq!['3'] + seq!['.'] + seq!['1', '1']);
    lemma_two_component_version(seq!['3'], seq!['1', '1']);
    reveal_strlit("3.12");
    assert("3.12"@ =~= seq!['3'] + seq!['.'] + seq!['1', '2']);
    lemma_two_component_version(seq!['3'], seq!['1', '2']);
}

/// The catalog is strictly increasing: every entry is lexicographically
/// below every later one, so matching a release against the catalog never
/// meets the same version twice.
pub proof fn lemma_catalog_strictly_increasing()
    ensures
        forall|i: int, j: int|
            0 <= i < j < spec_py_version_catalog().len() ==> spec_version_lt(
                #[trigger] spec_py_version_catalog()[i],
                #[trigger] spec_py_version_catalog()[j],
            ),
{
}

} // verus!
