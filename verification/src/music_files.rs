//! Which files of the music folder can be background music: the list of
//! supported file extensions, and music ids read from file names.
use vstd::prelude::*;

verus! {

/// The Unicode `White_Space` characters, the ones `char::is_whitespace`
/// accepts.
pub open spec fn spec_is_white_space(c: char) -> bool {
    let u = c as u32;
    ||| 0x9 <= u <= 0xd
    ||| u == 0x20
    ||| u == 0x85
    ||| u == 0xa0
    ||| u == 0x1680
    ||| 0x2000 <= u <= 0x200a
    ||| u == 0x2028
    ||| u == 0x2029
    ||| u == 0x202f
    ||| u == 0x205f
    ||| u == 0x3000
}

pub fn is_white_space(c: char) -> (b: bool)
    ensures
        b == spec_is_white_space(c),
{
    let u: u32 = c as u32;
    (0x9 <= u && u <= 0xd) || u == 0x20 || u == 0x85 || u == 0xa0 || u == 0x1680 || (0x2000 <= u && u
        <= 0x200a) || u == 0x2028 || u == 0x2029 || u == 0x202f || u == 0x205f || u == 0x3000
}

/// The characters without the white space they start with.
pub open spec fn trim_front(s: Seq<char>) -> Seq<char>
    decreases s.len(),
{
    if s.len() > 0 && spec_is_white_space(s[0]) {
        trim_front(s.drop_first())
    } else {
        s
    }
}

/// The characters without the white space they end with.
pub open spec fn trim_back(s: Seq<char>) -> Seq<char>
    decreases s.len(),
{
    if s.len() > 0 && spec_is_white_space(s.last()) {
        trim_back(s.drop_last())
    } else {
        s
    }
}

/// The characters without white space at either end, as `str::trim`
/// gives them.
pub open spec fn spec_trim(s: Seq<char>) -> Seq<char> {
    trim_back(trim_front(s))
}

proof fn lemma_trim_front_skip(s: Seq<char>, i: int)
    requires
        0 <= i <= s.len(),
        forall|j: int| 0 <= j < i ==> spec_is_white_space(#[trigger] s[j]),
    ensures
        trim_front(s) == trim_front(s.subrange(i, s.len() as int)),
    decreases i,
{
    if i > 0 {
        assert(s.drop_first() =~= s.subrange(1, s.len() as int));
        let t = s.drop_first();
        assert forall|j: int| 0 <= j < i - 1 implies spec_is_white_space(#[trigger] t[j]) by {
            assert(t[j] == s[j + 1]);
        }
        lemma_trim_front_skip(t, i - 1);
        assert(t.subrange(i - 1, t.len() as int) =~= s.subrange(i, s.len() as int));
    } else {
        assert(s.subrange(0, s.len() as int) =~= s);
    }
}

proof fn lemma_trim_back_skip(s: Seq<char>, k: int)
    requires
        0 <= k <= s.len(),
        forall|j: int| k <= j < s.len() ==> spec_is_white_space(#[trigger] s[j]),
    ensures
        trim_back(s) == trim_back(s.subrange(0, k)),
    decreases s.len() - k,
{
    if k < s.len() {
        let t = s.drop_last();
        assert forall|j: int| k <= j < t.len() implies spec_is_white_space(#[trigger] t[j]) by {
            assert(t[j] == s[j]);
        }
        assert(spec_is_white_space(s.last()));
        lemma_trim_back_skip(t, k);
        assert(t.subrange(0, k) =~= s.subrange(0, k));
    } else {
        assert(s.subrange(0, k) =~= s);
    }
}

/// `s` without white space at either end (`str::trim`).
pub fn trim(s: &str) -> (t: String)
    ensures
        t@ == spec_trim(s@),
{
    let n: usize = s.unicode_len();
    let mut i: usize = 0;
    while i < n && is_white_space(s.get_char(i))
        invariant
            n == s@.len(),
            i <= n,
            forall|j: int| 0 <= j < i ==> spec_is_white_space(#[trigger] s@[j]),
        decreases n - i,
    {
        i = i + 1;
    }
    let mut k: usize = n;
    while k > i && is_white_space(s.get_char(k - 1))
        invariant
            n == s@.len(),
            i <= k <= n,
            forall|j: int| k <= j < n ==> spec_is_white_space(#[trigger] s@[j]),
        decreases k - i,
    {
        k = k - 1;
    }
    proof {
        lemma_trim_front_skip(s@, i as int);
        let rest = s@.subrange(i as int, n as int);
        assert(i == n || !spec_is_white_space(rest[0]));
        assert(trim_front(rest) == rest);
        assert forall|j: int| k - i <= j < rest.len() implies spec_is_white_space(#[trigger] rest[j]) by {
            assert(rest[j] == s@[j + i]);
        }
        lemma_trim_back_skip(rest, k - i);
        let kept = rest.subrange(0, k - i);
        assert(kept =~= s@.subrange(i as int, k as int));
        assert(k == i || !spec_is_white_space(kept.last()));
        assert(trim_back(kept) == kept);
    }
    s.substring_char(i, k).to_owned()
}

/// The pieces of `s` between its commas, as `str::split(",")` gives them:
/// one more piece than there are commas.
pub open spec fn spec_split_commas(s: Seq<char>) -> Seq<Seq<char>>
    decreases s.len(),
{
    if s.len() == 0 {
        seq![Seq::empty()]
    } else {
        let before = spec_split_commas(s.drop_last());
        if s.last() == ',' {
            before.push(Seq::empty())
        } else {
            before.update(before.len() - 1, before.last().push(s.last()))
        }
    }
}

proof fn lemma_split_commas_nonempty(s: Seq<char>)
    ensures
        spec_split_commas(s).len() >= 1,
    decreases s.len(),
{
    if s.len() > 0 {
        lemma_split_commas_nonempty(s.drop_last());
    }
}

/// The file extensions listed in `csv`, separated by commas, each without
/// white space at either end.
pub open spec fn spec_extension_list(csv: Seq<char>) -> Seq<Seq<char>> {
    spec_split_commas(csv).map_values(|p: Seq<char>| spec_trim(p))
}

/// Reads the list of supported file extensions (see
/// `spec_extension_list`).
pub fn parse_extension_list(csv: &str) -> (exts: Vec<String>)
    ensures
        exts@.len() == spec_extension_list(csv@).len(),
        forall|i: int| 0 <= i < exts@.len() ==> (#[trigger] exts@[i])@ == spec_extension_list(csv@)[i],
{
    let n: usize = csv.unicode_len();
    let mut pieces: Vec<String> = Vec::new();
    let mut start: usize = 0;
    let mut i: usize = 0;
    while i < n
        invariant
            n == csv@.len(),
            start <= i <= n,
            pieces@.len() + 1 == spec_split_commas(csv@.take(i as int)).len(),
            forall|j: int| 0 <= j < pieces@.len() ==> (#[trigger] pieces@[j])@ == spec_trim(spec_split_commas(csv@.take(i as int))[j]),
            spec_split_commas(csv@.take(i as int)).last() == csv@.subrange(start as int, i as int),
        decreases n - i,
    {
        let c: char = csv.get_char(i);
        proof {
            assert(csv@.take(i + 1).drop_last() =~= csv@.take(i as int));
            assert(csv@.take(i + 1).last() == c);
            lemma_split_commas_nonempty(csv@.take(i as int));
        }
        if c == ',' {
            let piece: &str = csv.substring_char(start, i);
            pieces.push(trim(piece));
            start = i + 1;
            proof {
                assert(csv@.subrange(start as int, i + 1) =~= Seq::<char>::empty());
            }
        } else {
            proof {
                assert(csv@.subrange(start as int, i + 1) =~= csv@.subrange(start as int, i as int).push(c));
            }
        }
        i = i + 1;
    }
    let last: &str = csv.substring_char(start, n);
    pieces.push(trim(last));
    proof {
        assert(csv@.take(n as int) =~= csv@);
        lemma_split_commas_nonempty(csv@);
    }
    pieces
}

/// Whether two strings hold the same characters.
pub fn same_text(a: &str, b: &str) -> (r: bool)
    ensures
        r == (a@ == b@),
{
    let n: usize = a.unicode_len();
    if n != b.unicode_len() {
        return false;
    }
    let mut i: usize = 0;
    while i < n
        invariant
            n == a@.len(),
            n == b@.len(),
            i <= n,
            forall|j: int| 0 <= j < i ==> a@[j] == b@[j],
        decreases n - i,
    {
        if a.get_char(i) != b.get_char(i) {
            return false;
        }
        i = i + 1;
    }
    proof {
        assert(a@ =~= b@);
    }
    true
}

/// Whether `text` is one of `list`.
pub fn list_contains(list: &Vec<String>, text: &str) -> (r: bool)
    ensures
        r == exists|i: int| 0 <= i < list@.len() && (#[trigger] list@[i])@ == text@,
{
    let mut i: usize = 0;
    while i < list.len()
        invariant
            i <= list@.len(),
            forall|j: int| 0 <= j < i ==> (#[trigger] list@[j])@ != text@,
        decreases list@.len() - i,
    {
        if same_text(list[i].as_str(), text) {
            return true;
        }
        i = i + 1;
    }
    false
}

/// An ASCII decimal digit.
pub open spec fn is_digit(c: char) -> bool {
    '0' as u32 <= c as u32 <= '9' as u32
}

/// The number the decimal digits spell.
pub open spec fn digits_value(s: Seq<char>) -> int
    decreases s.len(),
{
    if s.len() == 0 {
        0
    } else {
        digits_value(s.drop_last()) * 10 + (s.last() as u32 - '0' as u32)
    }
}

/// The characters after an optional leading `+`.
pub open spec fn unsigned_digits(s: Seq<char>) -> Seq<char> {
    if s.len() > 0 && s[0] == '+' {
        s.drop_first()
    } else {
        s
    }
}

/// What `str::parse::<usize>` gives: an optional `+` and then one or more
/// decimal digits spelling a number that fits in a `usize`; nothing
/// otherwise.
pub open spec fn spec_parse_usize(s: Seq<char>) -> Option<usize> {
    let digits = unsigned_digits(s);
    if digits.len() > 0 && (forall|i: int| 0 <= i < digits.len() ==> is_digit(#[trigger] digits[i]))
        && digits_value(digits) <= usize::MAX {
        Some(digits_value(digits) as usize)
    } else {
        None
    }
}

proof fn lemma_digits_value_grows(s: Seq<char>, k: int)
    requires
        0 <= k <= s.len(),
        forall|i: int| 0 <= i < s.len() ==> is_digit(#[trigger] s[i]),
    ensures
        0 <= digits_value(s.take(k)) <= digits_value(s),
    decreases s.len() - k,
{
    if k < s.len() {
        let t = s.drop_last();
        assert forall|i: int| 0 <= i < t.len() implies is_digit(#[trigger] t[i]) by {
            assert(t[i] == s[i]);
        }
        lemma_digits_value_grows(t, k);
        assert(t.take(k) =~= s.take(k));
        lemma_digits_value_grows(t, t.len() as int);
        assert(t.take(t.len() as int) =~= t);
    } else {
        assert(s.take(k) =~= s);
        lemma_digits_value_nonneg(s);
    }
}

proof fn lemma_digits_value_nonneg(s: Seq<char>)
    requires
        forall|i: int| 0 <= i < s.len() ==> is_digit(#[trigger] s[i]),
    ensures
        digits_value(s) >= 0,
    decreases s.len(),
{
    if s.len() > 0 {
        let t = s.drop_last();
        assert forall|i: int| 0 <= i < t.len() implies is_digit(#[trigger] t[i]) by {
            assert(t[i] == s[i]);
        }
        lemma_digits_value_nonneg(t);
        assert(is_digit(s[s.len() - 1]));
    }
}

/// Reads a decimal `usize` (see `spec_parse_usize`).
pub fn parse_usize(s: &str) -> (r: Option<usize>)
    ensures
        r == spec_parse_usize(s@),
{
    let n: usize = s.unicode_len();
    let start: usize = if n > 0 && s.get_char(0) == '+' {
        1
    } else {
        0
    };
    let ghost digits = s@.subrange(start as int, n as int);
    proof {
        if n > 0 && s@[0] == '+' {
            assert(digits =~= s@.drop_first());
        } else {
            assert(digits =~= s@);
        }
    }
    if start == n {
        return None;
    }
    let mut value: usize = 0;
    let mut i: usize = start;
    while i < n
        invariant
            n == s@.len(),
            start <= i <= n,
            start < n,
            digits == s@.subrange(start as int, n as int),
            digits == unsigned_digits(s@),
            forall|j: int| 0 <= j < i - start ==> is_digit(#[trigger] digits[j]),
            value == digits_value(digits.take(i - start)),
        decreases n - i,
    {
        let c: char = s.get_char(i);
        proof {
            assert(c == digits[i - start]);
        }
        if !('0' <= c && c <= '9') {
            proof {
                assert(!is_digit(digits[i - start]));
            }
            return None;
        }
        let d: usize = (c as u32 - '0' as u32) as usize;
        proof {
            let k = i - start;
            assert(digits.take(k + 1).drop_last() =~= digits.take(k));
            assert(digits.take(k + 1).last() == c);
            assert(digits_value(digits.take(k + 1)) == value * 10 + d);
        }
        let next: Option<usize> = match value.checked_mul(10) {
            Some(v) => v.checked_add(d),
            None => None,
        };
        match next {
            Some(v) => {
                value = v;
            },
            None => {
                proof {
                    let k = i - start;
                    assert(value * 10 + d > usize::MAX);
                    if forall|j: int| 0 <= j < digits.len() ==> is_digit(#[trigger] digits[j]) {
                        lemma_digits_value_grows(digits, k + 1);
                        assert(digits_value(digits) > usize::MAX);
                    }
                }
                return None;
            },
        }
        i = i + 1;
    }
    proof {
        assert(digits.take(n - start) =~= digits);
    }
    Some(value)
}

/// What a file of the music folder is to the game.
#[derive(Debug, Clone, Copy, PartialEq, Eq, Structural)]
pub enum MusicFile {
    /// Not music: the folder's read-me, or a file without an extension.
    Skip,
    /// An extension no decoder takes.
    Unsupported,
    /// Music, played in the order of this number.
    Id(usize),
    /// Music whose name is not a number.
    NotNumeric,
}

/// `extension` ends `filename` after a dot, as a path's extension does.
pub open spec fn is_extension_of(filename: Seq<char>, extension: Seq<char>) -> bool {
    &&& filename.len() > extension.len()
    &&& filename[filename.len() - extension.len() - 1] == '.'
    &&& filename.subrange(filename.len() - extension.len(), filename.len() as int) == extension
}

/// How a file is taken: the read-me and files without an extension are
/// skipped, extensions not in the list are unsupported, and otherwise the
/// name before the extension is the music's number.
pub open spec fn spec_classify(filename: Seq<char>, extension: Option<Seq<char>>, allowed: Seq<Seq<char>>) -> MusicFile {
    if filename == "README.txt"@ {
        MusicFile::Skip
    } else {
        match extension {
            None => MusicFile::Skip,
            Some(e) => if !allowed.contains(e) {
                MusicFile::Unsupported
            } else {
                match spec_parse_usize(filename.subrange(0, filename.len() - e.len() - 1)) {
                    Some(n) => MusicFile::Id(n),
                    None => MusicFile::NotNumeric,
                }
            },
        }
    }
}

/// Classifies a file of the music folder (see `spec_classify`), given its
/// name, its extension if it has one, and the supported extensions.
pub fn classify_music_file(filename: &str, extension: Option<&str>, allowed: &Vec<String>) -> (r: MusicFile)
    requires
        extension matches Some(e) ==> is_extension_of(filename@, e@),
    ensures
        r == spec_classify(
            filename@,
            match extension {
                Some(e) => Some(e@),
                None => None,
            },
            allowed@.map_values(|a: String| a@),
        ),
{
    let ghost names = allowed@.map_values(|a: String| a@);
    if same_text(filename, "README.txt") {
        return MusicFile::Skip;
    }
    match extension {
        None => MusicFile::Skip,
        Some(e) => {
            let listed: bool = list_contains(allowed, e);
            proof {
                if listed {
                    let i = choose|i: int| 0 <= i < allowed@.len() && (#[trigger] allowed@[i])@ == e@;
                    assert(names[i] == e@);
                } else {
                    assert forall|i: int| 0 <= i < names.len() implies names[i] != e@ by {
                        assert(names[i] == allowed@[i]@);
                    }
                }
            }
            if !listed {
                return MusicFile::Unsupported;
            }
            let n: usize = filename.unicode_len();
            let stem: &str = filename.substring_char(0, n - e.unicode_len() - 1);
            match parse_usize(stem) {
                Some(id) => MusicFile::Id(id),
                None => MusicFile::NotNumeric,
            }
        },
    }
}

} // verus!
