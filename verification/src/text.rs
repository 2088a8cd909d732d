//! Text handling: cleaning pane titles, reading numbers, quoting for a shell.

use vstd::prelude::*;

verus! {

/// `str` equality. Two string slices are equal exactly when they hold the same
/// characters in the same order.
pub assume_specification[ <str as PartialEq>::eq ](a: &str, b: &str) -> (same: bool)
    ensures
        same == (a@ == b@),
;

/// `String::push` appends the given character to the end of the string.
pub assume_specification[ String::push ](s: &mut String, c: char)
    ensures
        final(s)@ == old(s)@.push(c),
;

/// The longest tab name that is ever asked for, in characters.
pub const MAX_TAB_TITLE: usize = 40;

/// A control code: a character of Unicode's general category `Cc`.
pub open spec fn control_code(c: char) -> bool {
    ||| c as u32 <= 0x1f
    ||| 0x7f <= c as u32 <= 0x9f
}

/// A white-space character: one with Unicode's `White_Space` property.
pub open spec fn white_space(c: char) -> bool {
    ||| 0x09 <= c as u32 <= 0x0d
    ||| c as u32 == 0x20
    ||| c as u32 == 0x85
    ||| c as u32 == 0xa0
    ||| c as u32 == 0x1680
    ||| 0x2000 <= c as u32 <= 0x200a
    ||| c as u32 == 0x2028
    ||| c as u32 == 0x2029
    ||| c as u32 == 0x202f
    ||| c as u32 == 0x205f
    ||| c as u32 == 0x3000
}

/// Whether `c` is a control code.
pub fn is_control(c: char) -> (yes: bool)
    ensures
        yes == control_code(c),
{
    let n: u32 = c as u32;
    n <= 0x1f || (0x7f <= n && n <= 0x9f)
}

/// Whether `c` is white space.
pub fn is_whitespace(c: char) -> (yes: bool)
    ensures
        yes == white_space(c),
{
    let n: u32 = c as u32;
    (0x09 <= n && n <= 0x0d) || n == 0x20 || n == 0x85 || n == 0xa0 || n == 0x1680 || (0x2000 <= n
        && n <= 0x200a) || n == 0x2028 || n == 0x2029 || n == 0x202f || n == 0x205f || n == 0x3000
}

/// `s` without the white space it starts with.
pub open spec fn trimmed_start(s: Seq<char>) -> Seq<char>
    decreases s.len(),
{
    if s.len() > 0 && white_space(s.first()) {
        trimmed_start(s.drop_first())
    } else {
        s
    }
}

/// `s` without the white space it ends with.
pub open spec fn trimmed_end(s: Seq<char>) -> Seq<char>
    decreases s.len(),
{
    if s.len() > 0 && white_space(s.last()) {
        trimmed_end(s.drop_last())
    } else {
        s
    }
}

/// `s` without the white space at either end.
pub open spec fn trimmed(s: Seq<char>) -> Seq<char> {
    trimmed_end(trimmed_start(s))
}

/// Nothing but white space.
pub open spec fn blank(s: Seq<char>) -> bool {
    forall|i: int| 0 <= i < s.len() ==> white_space(#[trigger] s[i])
}

proof fn lemma_trimmed_start(s: Seq<char>, a: int)
    requires
        0 <= a <= s.len(),
        forall|i: int| 0 <= i < a ==> white_space(#[trigger] s[i]),
        a < s.len() ==> !white_space(s[a]),
    ensures
        trimmed_start(s) == s.skip(a),
    decreases a,
{
    if a > 0 {
        let t = s.drop_first();
        assert forall|i: int| 0 <= i < a - 1 implies white_space(#[trigger] t[i]) by {
            assert(t[i] == s[i + 1]);
        }
        lemma_trimmed_start(t, a - 1);
        assert(t.skip(a - 1) =~= s.skip(a));
    } else {
        assert(s.skip(0) =~= s);
    }
}

proof fn lemma_trimmed_end(s: Seq<char>, b: int)
    requires
        0 <= b <= s.len(),
        forall|i: int| b <= i < s.len() ==> white_space(#[trigger] s[i]),
        b > 0 ==> !white_space(s[b - 1]),
    ensures
        trimmed_end(s) == s.take(b),
    decreases s.len() - b,
{
    if b < s.len() {
        let t = s.drop_last();
        assert forall|i: int| b <= i < t.len() implies white_space(#[trigger] t[i]) by {
            assert(t[i] == s[i]);
        }
        lemma_trimmed_end(t, b);
        assert(t.take(b) =~= s.take(b));
    } else {
        assert(s.take(b) =~= s);
    }
}

/// Where the text of `s` starts and ends decides what trimming leaves.
proof fn lemma_trimmed(s: Seq<char>, a: int, b: int)
    requires
        0 <= a <= b <= s.len(),
        forall|i: int| 0 <= i < a ==> white_space(#[trigger] s[i]),
        forall|i: int| b <= i < s.len() ==> white_space(#[trigger] s[i]),
        a < b ==> !white_space(s[a]) && !white_space(s[b - 1]),
        a == b ==> a == s.len(),
    ensures
        trimmed(s) == s.subrange(a, b),
{
    lemma_trimmed_start(s, a);
    let t = s.skip(a);
    assert forall|i: int| b - a <= i < t.len() implies white_space(#[trigger] t[i]) by {
        assert(t[i] == s[i + a]);
    }
    assert(b > a ==> t[b - a - 1] == s[b - 1]);
    lemma_trimmed_end(t, b - a);
    assert(t.take(b - a) =~= s.subrange(a, b));
}

/// `s` without the white space at either end.
pub fn trim(s: &str) -> (t: &str)
    ensures
        t@ == trimmed(s@),
{
    let mut seen: usize = 0;
    let mut start: usize = 0;
    let mut end: usize = 0;
    let mut any: bool = false;
    let len: usize = s.unicode_len();
    for c in it: s.chars()
        invariant
            it.seq() == s@,
            len == s@.len(),
            seen == it.index(),
            start <= end <= seen,
            any ==> start < end && !white_space(s@[start as int]) && !white_space(s@[end - 1]),
            any ==> forall|i: int| 0 <= i < start ==> white_space(#[trigger] s@[i]),
            any ==> forall|i: int| end <= i < seen ==> white_space(#[trigger] s@[i]),
            !any ==> start == 0 && end == 0,
            !any ==> forall|i: int| 0 <= i < seen ==> white_space(#[trigger] s@[i]),
    {
        if !is_whitespace(c) {
            if !any {
                start = seen;
                any = true;
            }
            end = seen + 1;
        }
        seen = seen + 1;
    }
    if any {
        proof {
            lemma_trimmed(s@, start as int, end as int);
        }
        s.substring_char(start, end)
    } else {
        proof {
            lemma_trimmed(s@, len as int, len as int);
        }
        s.substring_char(len, len)
    }
}

/// Whether `s` is nothing but white space.
pub fn is_blank(s: &str) -> (yes: bool)
    ensures
        yes == blank(s@),
{
    for c in it: s.chars()
        invariant
            it.seq() == s@,
            forall|i: int| 0 <= i < it.index() ==> white_space(#[trigger] s@[i]),
    {
        if !is_whitespace(c) {
            proof {
                assert(!white_space(s@[it.index()]));
            }
            return false;
        }
    }
    true
}

/// A pane title as a tab name: control codes dropped, trimmed, and then cut to
/// at most `MAX_TAB_TITLE` characters.
pub open spec fn sanitized(raw: Seq<char>) -> Seq<char> {
    let text = trimmed(raw.filter(|c: char| !control_code(c)));
    if text.len() <= MAX_TAB_TITLE {
        text
    } else {
        text.take(MAX_TAB_TITLE as int)
    }
}

/// Strip control characters and clamp length before using a pane title as a tab
/// name. The status bar truncates further for display; this just bounds it.
pub fn sanitize_tab_title(raw: &str) -> (name: String)
    ensures
        name@ == sanitized(raw@),
{
    let ghost keep = |c: char| !control_code(c);
    let mut kept = String::new();
    proof {
        reveal(Seq::filter);
        assert(raw@.take(0).filter(keep) =~= Seq::<char>::empty());
    }
    for c in it: raw.chars()
        invariant
            it.seq() == raw@,
            keep == (|c: char| !control_code(c)),
            kept@ == raw@.take(it.index()).filter(keep),
    {
        proof {
            assert(raw@.take(it.index() + 1) =~= raw@.take(it.index()).push(c));
            raw@.take(it.index()).lemma_filter_push(c, keep);
        }
        if !is_control(c) {
            kept.push(c);
        }
    }
    proof {
        assert(raw@.take(raw@.len() as int) =~= raw@);
    }
    let text = trim(kept.as_str());
    if text.unicode_len() <= MAX_TAB_TITLE {
        text.to_owned()
    } else {
        text.substring_char(0, MAX_TAB_TITLE).to_owned()
    }
}

/// A decimal digit, `0` to `9`.
pub open spec fn digit(c: char) -> bool {
    '0' <= c <= '9'
}

/// The number that a run of decimal digits writes.
pub open spec fn decimal(s: Seq<char>) -> int
    decreases s.len(),
{
    if s.len() == 0 {
        0
    } else {
        10 * decimal(s.drop_last()) + (s.last() as int - '0' as int)
    }
}

/// `s` without one leading plus sign.
pub open spec fn unsigned_part(s: Seq<char>) -> Seq<char> {
    if s.len() > 0 && s[0] == '+' {
        s.skip(1)
    } else {
        s
    }
}

/// The number that `s` writes, if it is an optional plus sign, then decimal
/// digits and nothing else, and the number fits.
pub open spec fn parsed_u32(s: Seq<char>) -> Option<u32> {
    let digits = unsigned_part(s);
    if digits.len() > 0 && (forall|i: int| 0 <= i < digits.len() ==> digit(#[trigger] digits[i]))
        && decimal(digits) <= u32::MAX {
        Some(decimal(digits) as u32)
    } else {
        None
    }
}

/// Read a decimal number: an optional plus sign, then digits only.
pub fn parse_u32(s: &str) -> (number: Option<u32>)
    ensures
        number == parsed_u32(s@),
{
    let len: usize = s.unicode_len();
    let digits: &str = if len > 0 && s.get_char(0) == '+' {
        s.substring_char(1, len)
    } else {
        s
    };
    assert(digits@ =~= unsigned_part(s@));
    let mut any: bool = false;
    let mut value: u64 = 0;
    let mut fits: bool = true;
    for c in it: digits.chars()
        invariant
            it.seq() == digits@,
            digits@ == unsigned_part(s@),
            any == (it.index() > 0),
            forall|i: int| 0 <= i < it.index() ==> digit(#[trigger] digits@[i]),
            fits ==> value <= u32::MAX && value == decimal(digits@.take(it.index())),
            !fits ==> decimal(digits@.take(it.index())) > u32::MAX,
    {
        let ghost done = digits@.take(it.index());
        let ghost next = digits@.take(it.index() + 1);
        proof {
            assert(next.drop_last() =~= done);
            assert(next.last() == c);
        }
        if !('0' <= c && c <= '9') {
            proof {
                assert(!digit(digits@[it.index()]));
            }
            return None;
        }
        any = true;
        if fits {
            value = 10 * value + (c as u64 - '0' as u64);
            fits = value <= 0xffff_ffff;
        }
    }
    proof {
        assert(digits@.take(digits@.len() as int) =~= digits@);
    }
    if any && fits {
        Some(value as u32)
    } else {
        None
    }
}

/// One character as it stands inside single quotes on a shell's command line: a
/// single quote closes the quotes, stands behind a backslash, and opens them again.
pub open spec fn quoted_char(c: char) -> Seq<char> {
    if c == '\'' {
        seq!['\'', '\\', '\'', '\'']
    } else {
        seq![c]
    }
}

/// `s` as it stands inside single quotes on a shell's command line.
pub open spec fn shell_escaped(s: Seq<char>) -> Seq<char>
    decreases s.len(),
{
    if s.len() == 0 {
        Seq::empty()
    } else {
        quoted_char(s.first()) + shell_escaped(s.drop_first())
    }
}

/// The word that a shell reads from `s`, where all of `s` is made of single-quoted
/// stretches and backslash-escaped characters; `None` where it is not, or where a
/// quote is left open.
pub open spec fn shell_word(s: Seq<char>, in_quotes: bool) -> Option<Seq<char>>
    decreases s.len(),
{
    if s.len() == 0 {
        if in_quotes {
            None
        } else {
            Some(Seq::empty())
        }
    } else if s[0] == '\'' {
        shell_word(s.skip(1), !in_quotes)
    } else if in_quotes {
        match shell_word(s.skip(1), true) {
            Some(rest) => Some(seq![s[0]] + rest),
            None => None,
        }
    } else if s[0] == '\\' && s.len() > 1 {
        match shell_word(s.skip(2), false) {
            Some(rest) => Some(seq![s[1]] + rest),
            None => None,
        }
    } else {
        None
    }
}

/// Write `s` so that it can stand inside single quotes on a shell's command line.
pub fn shell_escape(s: &str) -> (escaped: String)
    ensures
        escaped@ == shell_escaped(s@),
{
    let mut escaped = String::new();
    proof {
        assert(s@.skip(0) =~= s@);
    }
    for c in it: s.chars()
        invariant
            it.seq() == s@,
            escaped@ + shell_escaped(s@.skip(it.index())) == shell_escaped(s@),
    {
        let ghost before = escaped@;
        proof {
            assert(s@.skip(it.index()).drop_first() =~= s@.skip(it.index() + 1));
            assert(s@.skip(it.index()).first() == c);
        }
        if c == '\'' {
            escaped.push('\'');
            escaped.push('\\');
            escaped.push('\'');
            escaped.push('\'');
        } else {
            escaped.push(c);
        }
        proof {
            assert(escaped@ =~= before + quoted_char(c));
            assert(escaped@ + shell_escaped(s@.skip(it.index() + 1)) =~= before + (quoted_char(c)
                + shell_escaped(s@.skip(it.index() + 1))));
        }
    }
    proof {
        assert(s@.skip(s@.len() as int) =~= Seq::<char>::empty());
        assert(escaped@ + Seq::<char>::empty() =~= escaped@);
    }
    escaped
}

proof fn lemma_escaped_read_in_quotes(s: Seq<char>)
    ensures
        shell_word(shell_escaped(s) + seq!['\''], true) == Some(s),
    decreases s.len(),
{
    let whole = shell_escaped(s) + seq!['\''];
    if s.len() == 0 {
        assert(whole =~= seq!['\'']);
        assert(whole.skip(1) =~= Seq::<char>::empty());
        assert(shell_word(whole.skip(1), false) == Some(Seq::<char>::empty()));
        assert(s =~= Seq::<char>::empty());
    } else {
        let rest = s.drop_first();
        lemma_escaped_read_in_quotes(rest);
        let tail = shell_escaped(rest) + seq!['\''];
        assert(whole =~= quoted_char(s.first()) + tail);
        assert(seq![s.first()] + rest =~= s);
        if s.first() == '\'' {
            let a = whole.skip(1);
            let b = a.skip(2);
            assert(b =~= seq!['\''] + tail);
            assert(b.skip(1) =~= tail);
            assert(shell_word(b, false) == Some(rest));
            assert(a[0] == '\\' && a[1] == '\'');
            assert(shell_word(a, false) == Some(seq!['\''] + rest));
        } else {
            assert(whole.skip(1) =~= tail);
        }
    }
}

/// Quoting is undone by the shell: whatever the text, a shell reads its escaped
/// form between single quotes as one word, the text itself.
pub proof fn law_shell_reads_back_what_was_escaped(s: Seq<char>)
    ensures
        shell_word(seq!['\''] + shell_escaped(s) + seq!['\''], false) == Some(s),
{
    lemma_escaped_read_in_quotes(s);
    let whole = seq!['\''] + shell_escaped(s) + seq!['\''];
    assert(whole.skip(1) =~= shell_escaped(s) + seq!['\'']);
}

proof fn lemma_trim_bounds(s: Seq<char>) -> (bounds: (int, int))
    ensures
        0 <= bounds.0 <= bounds.1 <= s.len(),
        forall|i: int| 0 <= i < bounds.0 ==> white_space(#[trigger] s[i]),
        forall|i: int| bounds.1 <= i < s.len() ==> white_space(#[trigger] s[i]),
        bounds.0 < bounds.1 ==> !white_space(s[bounds.0]) && !white_space(s[bounds.1 - 1]),
        bounds.0 == bounds.1 ==> bounds.0 == s.len(),
        trimmed(s) == s.subrange(bounds.0, bounds.1),
    decreases s.len(),
{
    if s.len() == 0 {
        lemma_trimmed(s, 0, 0);
        (0, 0)
    } else {
        let (a, b) = lemma_trim_bounds(s.drop_last());
        let t = s.drop_last();
        assert(forall|i: int| 0 <= i < t.len() ==> t[i] == s[i]);
        let n = s.len() as int;
        let bounds = if !white_space(s.last()) {
            if a < b {
                (a, n)
            } else {
                (n - 1, n)
            }
        } else if a < b {
            (a, b)
        } else {
            (n, n)
        };
        lemma_trimmed(s, bounds.0, bounds.1);
        bounds
    }
}

/// Trimming leaves nothing of a text exactly when it is nothing but white space.
pub proof fn law_blank_is_trimmed_to_nothing(s: Seq<char>)
    ensures
        blank(s) <==> trimmed(s).len() == 0,
{
    let (a, b) = lemma_trim_bounds(s);
    if a < b {
        assert(!white_space(s[a]));
    }
}

/// A tab name made from a pane title is at most `MAX_TAB_TITLE` characters long,
/// holds no control code, and does not start with white space.
pub proof fn law_sanitized_is_clean(raw: Seq<char>)
    ensures
        sanitized(raw).len() <= MAX_TAB_TITLE,
        forall|i: int|
            0 <= i < sanitized(raw).len() ==> !control_code(#[trigger] sanitized(raw)[i]),
        sanitized(raw).len() > 0 ==> !white_space(sanitized(raw)[0]),
{
    let keep = |c: char| !control_code(c);
    let kept = raw.filter(keep);
    let (a, b) = lemma_trim_bounds(kept);
    assert forall|i: int| 0 <= i < sanitized(raw).len() implies !control_code(
        #[trigger] sanitized(raw)[i],
    ) by {
        raw.lemma_filter_pred(keep, a + i);
        assert(sanitized(raw)[i] == kept[a + i]);
    }
}

/// Sanitizing a sanitized title changes nothing, unless the cut left white space
/// at its end.
pub proof fn law_sanitizing_twice_is_sanitizing_once(raw: Seq<char>)
    requires
        sanitized(raw).len() > 0 ==> !white_space(sanitized(raw).last()),
    ensures
        sanitized(sanitized(raw)) == sanitized(raw),
{
    let name = sanitized(raw);
    let keep = |c: char| !control_code(c);
    law_sanitized_is_clean(raw);
    lemma_filter_all(name, keep);
    lemma_trimmed(name, 0, name.len() as int);
    assert(name.subrange(0, name.len() as int) =~= name);
}

proof fn lemma_filter_all(s: Seq<char>, keep: spec_fn(char) -> bool)
    requires
        forall|i: int| 0 <= i < s.len() ==> keep(#[trigger] s[i]),
    ensures
        s.filter(keep) == s,
    decreases s.len(),
{
    reveal(Seq::filter);
    if s.len() > 0 {
        let t = s.drop_last();
        assert forall|i: int| 0 <= i < t.len() implies keep(#[trigger] t[i]) by {
            assert(t[i] == s[i]);
        }
        lemma_filter_all(t, keep);
        assert(t.push(s.last()) =~= s);
    }
}

/// A title with nothing in it but white space and control codes gives no tab name,
/// and only such a title does.
pub proof fn law_sanitized_is_empty_only_for_no_text(raw: Seq<char>)
    ensures
        sanitized(raw).len() == 0 <==> (forall|i: int|
            0 <= i < raw.len() ==> white_space(#[trigger] raw[i]) || control_code(raw[i])),
{
    let keep = |c: char| !control_code(c);
    let kept = raw.filter(keep);
    law_blank_is_trimmed_to_nothing(kept);
    if blank(kept) {
        assert forall|i: int| 0 <= i < raw.len() implies white_space(#[trigger] raw[i])
            || control_code(raw[i]) by {
            if keep(raw[i]) {
                raw.lemma_filter_contains(keep, i);
                assert(kept.contains(raw[i]));
            }
        }
    } else {
        let j = choose|j: int| 0 <= j < kept.len() && !white_space(#[trigger] kept[j]);
        raw.lemma_filter_pred(keep, j);
        assert(kept.contains(kept[j]));
        raw.lemma_filter_contains_rev(keep, kept[j]);
        let i = choose|i: int| 0 <= i < raw.len() && raw[i] == kept[j];
        assert(!white_space(raw[i]) && !control_code(raw[i]));
    }
}

/// Trimming takes white space off both ends and nothing else: what is left is one stretch
/// of the text, from its first to its last character that is not white space.
pub proof fn law_trimming_takes_white_space_off_the_ends(s: Seq<char>) -> (ends: (int, int))
    ensures
        0 <= ends.0 <= ends.1 <= s.len(),
        forall|i: int| 0 <= i < ends.0 ==> white_space(#[trigger] s[i]),
        forall|i: int| ends.1 <= i < s.len() ==> white_space(#[trigger] s[i]),
        ends.0 < ends.1 ==> !white_space(s[ends.0]) && !white_space(s[ends.1 - 1]),
        trimmed(s).len() == ends.1 - ends.0,
        forall|i: int| 0 <= i < ends.1 - ends.0 ==> #[trigger] trimmed(s)[i] == s[ends.0 + i],
{
    lemma_trim_bounds(s)
}

/// Where the characters that are no control codes stand, in order.
proof fn lemma_filter_positions(s: Seq<char>) -> (at: Seq<int>)
    ensures
        at.len() == s.filter(|c: char| !control_code(c)).len(),
        forall|k: int|
            0 <= k < at.len() ==> 0 <= #[trigger] at[k] < s.len() && !control_code(s[at[k]])
                && s.filter(|c: char| !control_code(c))[k] == s[at[k]],
        forall|k: int, l: int| 0 <= k < l < at.len() ==> #[trigger] at[k] < #[trigger] at[l],
        forall|j: int|
            0 <= j < s.len() && !control_code(#[trigger] s[j]) ==> exists|k: int|
                0 <= k < at.len() && #[trigger] at[k] == j,
    decreases s.len(),
{
    reveal(Seq::filter);
    let keep = |c: char| !control_code(c);
    if s.len() == 0 {
        Seq::empty()
    } else {
        let t = s.drop_last();
        let before = lemma_filter_positions(t);
        let n = s.len() - 1;
        assert(forall|j: int| 0 <= j < n ==> t[j] == s[j]);
        let at = if control_code(s.last()) {
            before
        } else {
            before.push(n)
        };
        assert forall|j: int| 0 <= j < s.len() && !control_code(#[trigger] s[j]) implies exists|
            k: int,
        |
            0 <= k < at.len() && #[trigger] at[k] == j by {
            if j < n {
                assert(!control_code(t[j]));
                let k = choose|k: int| 0 <= k < before.len() && #[trigger] before[k] == j;
                assert(at[k] == j);
            } else {
                assert(at[before.len() as int] == j);
            }
        }
        at
    }
}

/// Where a title's own text stands: `at` are the places of the characters that are no
/// control codes, all of them and in order; from `start` to `end` is what white space at
/// either end leaves of those.
pub struct TextPlaces {
    pub at: Seq<int>,
    pub start: int,
    pub end: int,
}

/// A tab name keeps its title's characters: it is what stands where the title's own text
/// stands, character by character, from the start and up to `MAX_TAB_TITLE` of it.
pub proof fn law_a_name_keeps_its_titles_characters(raw: Seq<char>) -> (places: TextPlaces)
    ensures
        forall|k: int|
            0 <= k < places.at.len() ==> 0 <= #[trigger] places.at[k] < raw.len() && !control_code(
                raw[places.at[k]],
            ),
        forall|k: int, l: int|
            0 <= k < l < places.at.len() ==> #[trigger] places.at[k] < #[trigger] places.at[l],
        forall|j: int|
            0 <= j < raw.len() && !control_code(#[trigger] raw[j]) ==> places.at.contains(j),
        0 <= places.start <= places.end <= places.at.len(),
        forall|k: int|
            0 <= k < places.start || places.end <= k < places.at.len() ==> white_space(
                raw[#[trigger] places.at[k]],
            ),
        places.start < places.end ==> !white_space(raw[places.at[places.start]]) && !white_space(
            raw[places.at[places.end - 1]],
        ),
        sanitized(raw).len() == (if places.end - places.start <= 40 {
            places.end - places.start
        } else {
            40
        }),
        forall|i: int|
            0 <= i < sanitized(raw).len() ==> #[trigger] sanitized(raw)[i]
                == raw[places.at[places.start + i]],
{
    let at = lemma_filter_positions(raw);
    let kept = raw.filter(|c: char| !control_code(c));
    let (start, end) = lemma_trim_bounds(kept);
    let places = TextPlaces { at, start, end };
    assert forall|k: int| 0 <= k < start || end <= k < at.len() implies white_space(
        raw[#[trigger] places.at[k]],
    ) by {
        assert(white_space(kept[k]));
        assert(at[k] == places.at[k]);
    }
    if start < end {
        assert(kept[start] == raw[at[start]]);
        assert(kept[end - 1] == raw[at[end - 1]]);
    }
    assert forall|i: int| 0 <= i < sanitized(raw).len() implies #[trigger] sanitized(raw)[i]
        == raw[places.at[places.start + i]] by {
        assert(sanitized(raw)[i] == kept[start + i]);
        assert(kept[start + i] == raw[at[start + i]]);
    }
    assert forall|j: int| 0 <= j < raw.len() && !control_code(
        #[trigger] raw[j],
    ) implies places.at.contains(j) by {
        let k = choose|k: int| 0 <= k < at.len() && #[trigger] at[k] == j;
        assert(at[k] == j);
    }
    places
}

/// A title without control codes, without white space at its ends, and of at most
/// `MAX_TAB_TITLE` characters is its own tab name.
pub proof fn law_a_clean_title_is_its_own_name(raw: Seq<char>)
    requires
        raw.len() <= 40,
        forall|i: int| 0 <= i < raw.len() ==> !control_code(#[trigger] raw[i]),
        raw.len() > 0 ==> !white_space(raw[0]) && !white_space(raw[raw.len() - 1]),
    ensures
        sanitized(raw) == raw,
{
    lemma_filter_all(raw, |c: char| !control_code(c));
    lemma_trimmed(raw, 0, raw.len() as int);
    assert(raw.subrange(0, raw.len() as int) =~= raw);
}

/// One digit more is ten times the number and the digit, as long as that fits.
pub proof fn law_numbers_are_read_digit_by_digit(s: Seq<char>, c: char)
    requires
        s.len() > 0,
        forall|i: int| 0 <= i < s.len() ==> '0' <= #[trigger] s[i] <= '9',
        '0' <= c <= '9',
    ensures
        parsed_u32(seq![c]) == Some((c as u32 - '0' as u32) as u32),
        parsed_u32(s.push(c)) == (match parsed_u32(s) {
            Some(n) => if 10 * n + (c as u32 - '0' as u32) <= u32::MAX {
                Some((10 * n + (c as u32 - '0' as u32)) as u32)
            } else {
                None
            },
            None => None,
        }),
{
    let one = seq![c];
    assert(one.drop_last() =~= Seq::<char>::empty());
    assert(decimal(one.drop_last()) == 0);
    assert(decimal(one) == c as int - '0' as int);
    let more = s.push(c);
    assert(more.drop_last() =~= s);
    assert(decimal(more) == 10 * decimal(s) + (c as int - '0' as int));
    lemma_decimal_is_positive(s);
    assert(s[0] != '+');
    assert(more[0] == s[0]);
    assert forall|i: int| 0 <= i < more.len() implies digit(#[trigger] more[i]) by {
        if i < s.len() {
            assert(more[i] == s[i]);
        }
    }
    assert forall|i: int| 0 <= i < s.len() implies digit(#[trigger] s[i]) by {}
    assert(digit(one[0]));
}

proof fn lemma_decimal_is_positive(s: Seq<char>)
    requires
        forall|i: int| 0 <= i < s.len() ==> '0' <= #[trigger] s[i] <= '9',
    ensures
        decimal(s) >= 0,
    decreases s.len(),
{
    if s.len() > 0 {
        let t = s.drop_last();
        assert forall|i: int| 0 <= i < t.len() implies '0' <= #[trigger] t[i] <= '9' by {
            assert(t[i] == s[i]);
        }
        lemma_decimal_is_positive(t);
        assert('0' <= s[s.len() - 1]);
    }
}

/// A plus sign in front of a number changes nothing, and anything else that is no digit
/// makes it no number; neither is nothing at all, nor a plus sign alone.
pub proof fn law_only_digits_make_a_number(s: Seq<char>, i: int)
    ensures
        s.len() > 0 && s[0] != '+' ==> parsed_u32(seq!['+'] + s) == parsed_u32(s),
        0 <= i < s.len() && !('0' <= s[i] <= '9') && !(i == 0 && s[0] == '+') ==> parsed_u32(s)
            is None,
        s.len() == 0 ==> parsed_u32(s) is None,
        s.len() == 1 && s[0] == '+' ==> parsed_u32(s) is None,
{
    if s.len() > 0 && s[0] != '+' {
        let signed = seq!['+'] + s;
        assert(signed.skip(1) =~= s);
    }
    if 0 <= i < s.len() && !('0' <= s[i] <= '9') && !(i == 0 && s[0] == '+') {
        let digits = unsigned_part(s);
        let k = if s[0] == '+' {
            i - 1
        } else {
            i
        };
        assert(digits[k] == s[i]);
        assert(!digit(digits[k]));
    }
}

/// Escaping goes character by character: a single quote becomes a closing quote, an
/// escaped quote and an opening quote, and any other character stays.
pub proof fn law_escaping_goes_character_by_character(a: Seq<char>, c: char, b: Seq<char>)
    ensures
        shell_escaped(Seq::empty()).len() == 0,
        c != '\'' ==> shell_escaped(a.push(c) + b) == shell_escaped(a) + seq![c]
            + shell_escaped(b),
        c == '\'' ==> shell_escaped(a.push(c) + b) == shell_escaped(a) + seq![
            '\'',
            '\\',
            '\'',
            '\'',
        ] + shell_escaped(b),
    decreases a.len(),
{
    let whole = a.push(c) + b;
    if a.len() == 0 {
        assert(whole.drop_first() =~= b);
        assert(shell_escaped(a) =~= Seq::<char>::empty());
        assert(shell_escaped(whole) =~= shell_escaped(a) + quoted_char(c) + shell_escaped(b));
    } else {
        let t = a.drop_first();
        law_escaping_goes_character_by_character(t, c, b);
        assert(whole.drop_first() =~= t.push(c) + b);
        assert(shell_escaped(whole) =~= quoted_char(a.first()) + (shell_escaped(t) + quoted_char(c)
            + shell_escaped(b)));
        assert(shell_escaped(a) =~= quoted_char(a.first()) + shell_escaped(t));
        assert(shell_escaped(whole) =~= shell_escaped(a) + quoted_char(c) + shell_escaped(b));
    }
}

/// Trimming takes off white space that was put around a text without any at its ends.
pub proof fn lemma_trimmed_of_padded(before: Seq<char>, text: Seq<char>, after: Seq<char>)
    requires
        forall|i: int| 0 <= i < before.len() ==> white_space(#[trigger] before[i]),
        forall|i: int| 0 <= i < after.len() ==> white_space(#[trigger] after[i]),
        text.len() > 0 ==> !white_space(text[0]) && !white_space(text[text.len() - 1]),
    ensures
        trimmed(before + text + after) == text,
{
    let s = before + text + after;
    let a = before.len() as int;
    let b = a + text.len();
    assert forall|i: int| 0 <= i < a implies white_space(#[trigger] s[i]) by {
        assert(s[i] == before[i]);
    }
    assert forall|i: int| b <= i < s.len() implies white_space(#[trigger] s[i]) by {
        assert(s[i] == after[i - b]);
    }
    if text.len() > 0 {
        assert(s[a] == text[0] && s[b - 1] == text[text.len() - 1]);
        lemma_trimmed(s, a, b);
        assert(s.subrange(a, b) =~= text);
    } else {
        let n = s.len() as int;
        lemma_trimmed(s, n, n);
        assert(s.subrange(n, n) =~= text);
    }
}

} // verus!
