//! Redaction of secrets in text that is about to be shown.
use vstd::prelude::*;

use crate::json::{Json, JsonView, Member, MemberView, first_member};
use crate::text::{ascii_lower, ascii_lower_char, is_white_space};

verus! {

/// One kind of secret: where it is found, and what is shown in its place.
#[derive(Debug, Clone, Copy)]
pub struct RedactionPattern {
    /// A regular expression for the secret and what announces it.
    pub regex: &'static str,
    /// The replacement, in which `${1}` stands for what announces the secret.
    pub replacement: &'static str,
}

/// An authorization header with a bearer token.
pub const AUTHORIZATION_HEADER: &'static str =
    "(?i)\\b(authorization\\s*:\\s*bearer\\s+)[^\\s;&]+";

/// A bearer token.
pub const BEARER_TOKEN: &'static str = "(?i)\\b(bearer\\s+)[^\\s;&]+";

/// A secret given as a command-line flag.
pub const SECRET_FLAG: &'static str =
    "(?i)(--(?:api-key|api_key|token|password|secret)(?:=|\\s+))[^\\s;&]+";

/// A secret given as an assignment.
pub const SECRET_ASSIGNMENT: &'static str =
    "(?i)\\b(api[_-]?key|apikey|token|password|secret)=([^\\s;&]+)";

/// What announces the secret, then the mark.
pub const MARK_VALUE: &'static str = "${1}<redacted>";

/// The assigned name, then an equals sign and the mark.
pub const MARK_ASSIGNMENT: &'static str = "${1}=<redacted>";

/// The regular expressions and replacements of the redaction, in the order in
/// which they are applied.
pub open spec fn redaction_rules() -> Seq<(Seq<char>, Seq<char>)> {
    seq![
        (AUTHORIZATION_HEADER@, MARK_VALUE@),
        (BEARER_TOKEN@, MARK_VALUE@),
        (SECRET_FLAG@, MARK_VALUE@),
        (SECRET_ASSIGNMENT@, MARK_ASSIGNMENT@),
    ]
}

// ── secrets ────────────────────────────────────────────────────────

/// A character without regard to case, as the expressions compare them: ASCII letters
/// in lower case, the long s as an s, and the Kelvin sign as a k.
pub open spec fn folded_char(c: char) -> char {
    if c == '\u{17f}' {
        's'
    } else if c == '\u{212a}' {
        'k'
    } else {
        ascii_lower_char(c)
    }
}

/// A text without regard to case.
pub open spec fn folded(s: Seq<char>) -> Seq<char> {
    s.map_values(|c: char| folded_char(c))
}

/// White space throughout.
pub open spec fn is_blank(s: Seq<char>) -> bool {
    forall|i: int| 0 <= i < s.len() ==> is_white_space(#[trigger] s[i])
}

/// What can be a secret's value: at least one character, and no white space,
/// semicolon or ampersand, which end a value.
pub open spec fn is_value(s: Seq<char>) -> bool {
    &&& s.len() > 0
    &&& forall|i: int|
        0 <= i < s.len() ==> !is_white_space(#[trigger] s[i]) && s[i] != ';' && s[i] != '&'
}

/// A command-line flag that takes a secret.
pub open spec fn is_secret_flag(s: Seq<char>) -> bool {
    let flag = folded(s);
    ||| flag == "--api-key"@
    ||| flag == "--api_key"@
    ||| flag == "--token"@
    ||| flag == "--password"@
    ||| flag == "--secret"@
}

/// A name that a secret is assigned to.
pub open spec fn is_secret_name(s: Seq<char>) -> bool {
    let name = folded(s);
    ||| name == "api-key"@
    ||| name == "api_key"@
    ||| name == "apikey"@
    ||| name == "token"@
    ||| name == "password"@
    ||| name == "secret"@
}

/// A flag, then an equals sign or white space.
pub open spec fn is_flag_head(s: Seq<char>) -> bool {
    exists|n: int|
        0 < n < s.len() && is_secret_flag(#[trigger] s.take(n)) && (s.skip(n) == "="@ || is_blank(
            s.skip(n),
        ))
}

/// A name and an equals sign.
pub open spec fn is_assignment_head(s: Seq<char>) -> bool {
    s.len() > 1 && is_secret_name(s.drop_last()) && s.last() == '='
}

/// The word `bearer` and white space.
pub open spec fn is_bearer_head(s: Seq<char>) -> bool {
    s.len() > 6 && folded(s.take(6)) == "bearer"@ && is_blank(s.skip(6))
}

/// The word `authorization`, a colon, the word `bearer` and white space; white space
/// may stand at either side of the colon.
pub open spec fn is_authorization_head(s: Seq<char>) -> bool {
    &&& s.len() > 13
    &&& folded(s.take(13)) == "authorization"@
    &&& exists|colon: int, bearer: int|
        13 <= colon < bearer <= s.len() && is_blank(#[trigger] s.subrange(13, colon)) && s[colon]
            == ':' && is_blank(s.subrange(colon + 1, bearer)) && is_bearer_head(
            #[trigger] s.skip(bearer),
        )
}

/// Whether the word `bearer` with white space after it occurs in `s`.
pub open spec fn announces_bearer(s: Seq<char>) -> bool {
    exists|i: int|
        0 <= i < s.len() - 6 && folded(#[trigger] s.subrange(i, i + 6)) == "bearer"@
            && is_white_space(s[i + 6])
}

/// Whether the word `authorization` occurs in `s`, and somewhere after it the word
/// `bearer` with white space.
pub open spec fn announces_authorization(s: Seq<char>) -> bool {
    exists|i: int, j: int|
        0 <= i <= j - 13 && j < s.len() - 6 && folded(#[trigger] s.subrange(i, i + 13))
            == "authorization"@ && folded(#[trigger] s.subrange(j, j + 6)) == "bearer"@
            && is_white_space(s[j + 6])
}

/// Whether a flag that takes a secret occurs in `s`, with an equals sign or white space
/// after it.
pub open spec fn announces_flag(s: Seq<char>) -> bool {
    exists|i: int, n: int|
        0 <= i < n < s.len() && is_secret_flag(#[trigger] s.subrange(i, n)) && (s[n] == '='
            || is_white_space(s[n]))
}

/// Whether a name that a secret is assigned to occurs in `s`, with an equals sign after
/// it.
pub open spec fn announces_assignment(s: Seq<char>) -> bool {
    exists|i: int, n: int|
        0 <= i < n < s.len() && is_secret_name(#[trigger] s.subrange(i, n)) && s[n] == '='
}

/// Plain text: nothing in it announces a secret.
pub open spec fn is_plain(text: Seq<char>) -> bool {
    !announces_bearer(text) && !announces_flag(text) && !announces_assignment(text)
}

/// What announces a secret to the given expression.
pub open spec fn is_head_of(regex: Seq<char>, head: Seq<char>) -> bool {
    ||| regex == AUTHORIZATION_HEADER@ && is_authorization_head(head)
    ||| regex == BEARER_TOKEN@ && is_bearer_head(head)
    ||| regex == SECRET_FLAG@ && is_flag_head(head)
    ||| regex == SECRET_ASSIGNMENT@ && is_assignment_head(head)
}

/// What announces a secret: a head of one of the four kinds.
pub open spec fn is_head(head: Seq<char>) -> bool {
    ||| is_authorization_head(head)
    ||| is_bearer_head(head)
    ||| is_flag_head(head)
    ||| is_assignment_head(head)
}

/// Whether `text[i..h]` can be the head of a secret: a character of a value comes after
/// it, and it does not begin in the middle of a word, which a flag alone may do.
pub open spec fn may_announce(text: Seq<char>, i: int, h: int) -> bool {
    &&& !is_white_space(text[h]) && !is_fence(text[h])
    &&& i == 0 || !is_ascii_word(text[i - 1]) || is_flag_head(text.subrange(i, h))
}

/// Whether the rule's regular expression may match somewhere in `text`.
pub open spec fn may_match(regex: Seq<char>, text: Seq<char>) -> bool {
    exists|i: int, h: int|
        0 <= i < h < text.len() && is_head_of(regex, #[trigger] text.subrange(i, h))
            && may_announce(text, i, h)
}

/// Whether there may be a secret in `text`: a head, with a value after it.
pub open spec fn may_hold_secret(text: Seq<char>) -> bool {
    exists|i: int, h: int|
        0 <= i < h < text.len() && is_head(#[trigger] text.subrange(i, h)) && may_announce(
            text,
            i,
            h,
        )
}

/// Whether `text` is one match of the rule's regular expression, or two hyphens or an
/// authorization in front of one: `head`, which announces the secret, and `value`.
pub open spec fn is_one_secret(
    regex: Seq<char>,
    text: Seq<char>,
    head: Seq<char>,
    value: Seq<char>,
) -> bool {
    &&& text == head + value
    &&& is_value(value)
    &&& {
        ||| regex == AUTHORIZATION_HEADER@ && is_authorization_head(head)
        ||| regex == BEARER_TOKEN@ && (is_bearer_head(head) || is_authorization_head(head))
        ||| regex == SECRET_FLAG@ && is_flag_head(head)
        ||| regex == SECRET_ASSIGNMENT@ && (is_assignment_head(head) || (head.len() > 2
            && head.take(2) == "--"@ && is_assignment_head(head.skip(2))))
    }
}

/// Whether `text` is a secret with what announces it: a `head` of one of the four kinds
/// and a `value`.
pub open spec fn is_announced_secret(
    text: Seq<char>,
    head: Seq<char>,
    value: Seq<char>,
) -> bool {
    &&& text == head + value
    &&& is_value(value)
    &&& {
        ||| is_authorization_head(head)
        ||| is_bearer_head(head)
        ||| is_flag_head(head)
        ||| is_assignment_head(head)
    }
}

/// Whether `c` stands between two parts of a text, of which each is redacted by itself.
pub open spec fn is_fence(c: char) -> bool {
    c == ';' || c == '&'
}

/// A letter, a digit or an underscore of ASCII.
pub open spec fn is_ascii_word(c: char) -> bool {
    'a' <= c <= 'z' || 'A' <= c <= 'Z' || '0' <= c <= '9' || c == '_'
}

/// A character that belongs to no word: white space, or one of ASCII that is neither
/// letter, digit nor underscore.
pub open spec fn is_break(c: char) -> bool {
    is_white_space(c) || (c as u32 <= 0x7f && !is_ascii_word(c))
}

/// Whether `s` ends in a flag that takes a secret or in the word `bearer`, so that white
/// space after it announces a secret.
pub open spec fn awaits_value(s: Seq<char>) -> bool {
    exists|n: int|
        0 <= n <= s.len() && (is_secret_flag(#[trigger] s.skip(n)) || folded(s.skip(n))
            == "bearer"@)
}

/// Whether white space after `s` may belong to what announces a secret.
pub open spec fn is_open(s: Seq<char>) -> bool {
    ||| awaits_value(s)
    ||| s.len() > 0 && (is_white_space(s.last()) || s.last() == ':')
    ||| exists|n: int| 0 <= n <= s.len() && folded(#[trigger] s.skip(n)) == "authorization"@
}

/// Whether a secret is the only one in a text, with `before` and `after` around it: they
/// announce nothing, `before` ends where a word may begin, and `after` begins with what
/// ends the value.
pub open spec fn is_set_apart(
    before: Seq<char>,
    head: Seq<char>,
    value: Seq<char>,
    after: Seq<char>,
) -> bool {
    &&& is_plain(before)
    &&& before.len() == 0 || is_break(before.last())
    &&& is_head(head)
    &&& is_value(value)
    &&& is_plain(after)
    &&& after.len() == 0 || is_fence(after.first()) || (is_white_space(after.first())
        && !awaits_value(value))
}

/// Whether `text` is a secret with `before` and `after` around it, set apart from them.
pub open spec fn holds_one_secret(
    text: Seq<char>,
    before: Seq<char>,
    head: Seq<char>,
    value: Seq<char>,
    after: Seq<char>,
) -> bool {
    text == before + head + value + after && is_set_apart(before, head, value, after)
}

// ── redaction of text ──────────────────────────────────────────────

/// What replacing every match of a regular expression in a text gives, as
/// `regex::Regex::replace_all` computes it.
pub uninterp spec fn regex_replace_all(
    regex: Seq<char>,
    text: Seq<char>,
    replacement: Seq<char>,
) -> Seq<char>;

/// Whether `r` is an assigned secret with the same head where `text` is one.
pub open spec fn keeps_assignment(text: Seq<char>, r: Seq<char>) -> bool {
    forall|head: Seq<char>, value: Seq<char>|
        is_assignment_head(head) && is_value(value) && text == #[trigger] (head + value)
            ==> exists|left: Seq<char>| is_value(left) && r == #[trigger] (head + left)
}

/// Whether `r` is `text` with the matches replaced in each of the parts on both sides of
/// a semicolon or an ampersand.
pub open spec fn replaced_by_parts(
    regex: Seq<char>,
    text: Seq<char>,
    replacement: Seq<char>,
    r: Seq<char>,
) -> bool {
    forall|a: Seq<char>, c: char, b: Seq<char>|
        is_fence(c) && text == #[trigger] (a.push(c) + b) ==> r == regex_replace_all(
            regex,
            a,
            replacement,
        ).push(c) + regex_replace_all(regex, b, replacement)
}

/// Whether `r` is `text` with the matches replaced in each of the parts on both sides of
/// white space that belongs to no head. The part before it stays one after which white
/// space belongs to no head.
pub open spec fn replaced_by_words(
    regex: Seq<char>,
    text: Seq<char>,
    replacement: Seq<char>,
    r: Seq<char>,
) -> bool {
    forall|a: Seq<char>, c: char, b: Seq<char>|
        is_white_space(c) && !is_open(a) && text == #[trigger] (a.push(c) + b) ==> r
            == regex_replace_all(regex, a, replacement).push(c) + regex_replace_all(
            regex,
            b,
            replacement,
        ) && !is_open(regex_replace_all(regex, a, replacement))
}

/// Whether a secret that is set apart in `text` is one in `r`, with the same around it
/// and the same head. Its value is the mark where the head is one of the expression's
/// own, and where it was the mark.
pub open spec fn keeps_around_secret(regex: Seq<char>, text: Seq<char>, r: Seq<char>) -> bool {
    forall|before: Seq<char>, head: Seq<char>, value: Seq<char>, after: Seq<char>| #[trigger]
        holds_one_secret(text, before, head, value, after) ==> exists|left: Seq<char>| #[trigger]
            holds_one_secret(r, before, head, left, after) && (is_head_of(regex, head) || value
                == "<redacted>"@ ==> left == "<redacted>"@)
}

/// `regex::Regex::new` compiles the expression, and `regex::Regex::replace_all`
/// replaces each of its matches in `text`. The result is named, and rests on
/// the three arguments alone. The expression has to compile: the expressions of
/// the redaction rules do. Of these it is also claimed:
///
/// - A text without a match comes back unchanged, and there is no match without a head
///   that the expression asks for, in any case, and a character of a value after it. But
///   for the flag expression, none begins directly after a letter, a digit or an
///   underscore.
/// - A text that ends in the one match that it has keeps all but the secret's value,
///   which is replaced by the mark.
/// - In an assigned secret, which holds no white space, the flag expression can match
///   in the value only, and leaves a value there.
/// - No match holds a semicolon or an ampersand, and none looks past one, so the parts
///   on both sides of one are replaced by themselves. The same holds of white space
///   where what comes before it can be no part of a head, which replacing does not change.
/// - Where one secret stands in a text that announces no other, at a place where a word
///   may begin, every expression leaves what is around it and what announces it, and some
///   value. Its own expression leaves the mark; each leaves a mark that is there.
#[verifier::external_body]
fn replace_all(regex: &str, text: &str, replacement: &str) -> (r: String)
    requires
        redaction_rules().contains((regex@, replacement@)),
    ensures
        r@ == regex_replace_all(regex@, text@, replacement@),
        !may_match(regex@, text@) ==> r@ == text@,
        forall|head: Seq<char>, value: Seq<char>| #[trigger]
            is_one_secret(regex@, text@, head, value) ==> r@ == head + "<redacted>"@,
        regex@ == SECRET_FLAG@ ==> keeps_assignment(text@, r@),
        replaced_by_parts(regex@, text@, replacement@, r@),
        replaced_by_words(regex@, text@, replacement@, r@),
        keeps_around_secret(regex@, text@, r@),
{
    regex::Regex::new(regex).unwrap().replace_all(text, replacement).into_owned()
}

/// `text` after the given rules, one after the other.
pub open spec fn apply_rules(rules: Seq<(Seq<char>, Seq<char>)>, text: Seq<char>) -> Seq<char>
    decreases rules.len(),
{
    if rules.len() == 0 {
        text
    } else {
        regex_replace_all(
            rules.last().0,
            apply_rules(rules.drop_last(), text),
            rules.last().1,
        )
    }
}

/// `text` with its secrets redacted.
pub open spec fn redacted(text: Seq<char>) -> Seq<char> {
    apply_rules(redaction_rules(), text)
}

/// The rules of the redaction, in order.
pub fn redaction_patterns() -> (patterns: Vec<RedactionPattern>)
    ensures
        patterns@.map_values(|p: RedactionPattern| (p.regex@, p.replacement@))
            == redaction_rules(),
{
    let patterns = vec![
        RedactionPattern { regex: AUTHORIZATION_HEADER, replacement: MARK_VALUE },
        RedactionPattern { regex: BEARER_TOKEN, replacement: MARK_VALUE },
        RedactionPattern { regex: SECRET_FLAG, replacement: MARK_VALUE },
        RedactionPattern { regex: SECRET_ASSIGNMENT, replacement: MARK_ASSIGNMENT },
    ];
    assert(patterns@.map_values(|p: RedactionPattern| (p.regex@, p.replacement@))
        =~= redaction_rules());
    patterns
}

/// The rule that redacts a secret with the given head.
spec fn rule_of(head: Seq<char>) -> int {
    if is_authorization_head(head) {
        0
    } else if is_bearer_head(head) {
        1
    } else if is_flag_head(head) {
        2
    } else {
        3
    }
}

/// Whether `text` is what the first `n` rules leave of a text with one secret: the same
/// with some value, or with the mark once the secret's own rule is among them.
spec fn is_left_by(
    n: int,
    text: Seq<char>,
    before: Seq<char>,
    head: Seq<char>,
    after: Seq<char>,
) -> bool {
    exists|left: Seq<char>| #[trigger]
        holds_one_secret(text, before, head, left, after) && (n > rule_of(head) ==> left
            == "<redacted>"@)
}

/// The next rule on what the first `n` rules leave of a text with one secret.
proof fn lemma_left_by_next(
    n: int,
    text: Seq<char>,
    r: Seq<char>,
    before: Seq<char>,
    head: Seq<char>,
    after: Seq<char>,
)
    requires
        0 <= n < 4,
        is_left_by(n, text, before, head, after),
        keeps_around_secret(redaction_rules()[n].0, text, r),
    ensures
        is_left_by(n + 1, r, before, head, after),
{
    let left = choose|left: Seq<char>| #[trigger]
        holds_one_secret(text, before, head, left, after) && (n > rule_of(head) ==> left
            == "<redacted>"@);
    assert(n == rule_of(head) ==> is_head_of(redaction_rules()[n].0, head));
}

/// A head announces a secret.
proof fn lemma_head_announces(text: Seq<char>, i: int, h: int)
    requires
        0 <= i < h <= text.len(),
        is_head(text.subrange(i, h)),
    ensures
        !is_plain(text),
{
    let head = text.subrange(i, h);
    if is_authorization_head(head) {
        let (colon, bearer) = choose|colon: int, bearer: int|
            13 <= colon < bearer <= head.len() && is_blank(#[trigger] head.subrange(13, colon))
                && head[colon] == ':' && is_blank(head.subrange(colon + 1, bearer))
                && is_bearer_head(#[trigger] head.skip(bearer));
        assert(text.subrange(i + bearer, h) == head.skip(bearer));
        lemma_bearer_head_announces(text, i + bearer, h);
    } else if is_bearer_head(head) {
        lemma_bearer_head_announces(text, i, h);
    } else if is_flag_head(head) {
        reveal_strlit("=");
        let n = choose|n: int|
            0 < n < head.len() && is_secret_flag(#[trigger] head.take(n)) && (head.skip(n) == "="@
                || is_blank(head.skip(n)));
        assert(text.subrange(i, i + n) == head.take(n));
        assert(head.skip(n)[0] == text[i + n]);
    } else {
        assert(text.subrange(i, h - 1) == head.drop_last());
        assert(text[h - 1] == head.last());
    }
}

/// The word `bearer` and white space announce a secret.
proof fn lemma_bearer_head_announces(text: Seq<char>, i: int, h: int)
    requires
        0 <= i < h <= text.len(),
        is_bearer_head(text.subrange(i, h)),
    ensures
        announces_bearer(text),
{
    let head = text.subrange(i, h);
    assert(text.subrange(i, i + 6) == head.take(6));
    assert(head.skip(6)[0] == text[i + 6]);
}

/// In plain text there is no secret.
proof fn lemma_plain_holds_none(text: Seq<char>)
    requires
        is_plain(text),
    ensures
        !may_hold_secret(text),
{
    if may_hold_secret(text) {
        let (i, h) = choose|i: int, h: int|
            0 <= i < h < text.len() && is_head(#[trigger] text.subrange(i, h)) && may_announce(
                text,
                i,
                h,
            );
        lemma_head_announces(text, i, h);
    }
}

/// Redact the known kinds of secrets in `s`. A text without secrets comes back unchanged.
/// Of a secret the value is replaced by a mark, wherever in the text it stands. The parts
/// of a text on both sides of a semicolon, an ampersand, or white space that belongs to
/// no head are redacted by themselves, and so each of several secrets is.
pub fn redact_secrets(s: &str) -> (r: String)
    ensures
        r@ == redacted(s@),
        is_plain(s@) ==> r@ == s@,
        !may_hold_secret(s@) ==> r@ == s@,
        forall|head: Seq<char>, value: Seq<char>| #[trigger]
            is_announced_secret(s@, head, value) ==> r@ == head + "<redacted>"@,
        forall|before: Seq<char>, head: Seq<char>, value: Seq<char>, after: Seq<char>| #[trigger]
            holds_one_secret(s@, before, head, value, after) ==> r@ == before + head
                + "<redacted>"@ + after,
        forall|a: Seq<char>, c: char, b: Seq<char>|
            is_fence(c) && s@ == #[trigger] (a.push(c) + b) ==> r@ == redacted(a).push(c)
                + redacted(b),
        forall|a: Seq<char>, c: char, b: Seq<char>|
            is_white_space(c) && !is_open(a) && s@ == #[trigger] (a.push(c) + b) ==> r@
                == redacted(a).push(c) + redacted(b),
{
    let patterns = redaction_patterns();
    let ghost rules = redaction_rules();
    let mut out: String = s.to_owned();
    let mut i: usize = 0;
    while i < patterns.len()
        invariant
            i <= patterns@.len(),
            rules == redaction_rules(),
            patterns@.map_values(|p: RedactionPattern| (p.regex@, p.replacement@)) == rules,
            out@ == apply_rules(rules.take(i as int), s@),
            !may_hold_secret(s@) ==> out@ == s@,
            forall|before: Seq<char>, head: Seq<char>, value: Seq<char>, after: Seq<char>|
                #[trigger] holds_one_secret(s@, before, head, value, after) ==> is_left_by(
                    i as int,
                    out@,
                    before,
                    head,
                    after,
                ),
            forall|a: Seq<char>, c: char, b: Seq<char>|
                is_fence(c) && s@ == #[trigger] (a.push(c) + b) ==> out@ == apply_rules(
                    rules.take(i as int),
                    a,
                ).push(c) + apply_rules(rules.take(i as int), b),
            forall|a: Seq<char>, c: char, b: Seq<char>|
                is_white_space(c) && !is_open(a) && s@ == #[trigger] (a.push(c) + b) ==> out@
                    == apply_rules(rules.take(i as int), a).push(c) + apply_rules(
                    rules.take(i as int),
                    b,
                ) && !is_open(apply_rules(rules.take(i as int), a)),
        decreases patterns@.len() - i,
    {
        let p = patterns[i];
        assert(rules[i as int] == (p.regex@, p.replacement@));
        assert(patterns@.len() == rules.len());
        let ghost was = out@;
        out = replace_all(p.regex, out.as_str(), p.replacement);
        i = i + 1;
        assert(rules.take(i as int).drop_last() == rules.take(i - 1));
        proof {
            assert(may_match(p.regex@, was) ==> may_hold_secret(was));
            assert forall|
                before: Seq<char>,
                head: Seq<char>,
                value: Seq<char>,
                after: Seq<char>,
            | #[trigger] holds_one_secret(s@, before, head, value, after) implies is_left_by(
                i as int,
                out@,
                before,
                head,
                after,
            ) by {
                lemma_left_by_next(i - 1, was, out@, before, head, after);
            }
        }
    }
    assert(rules.take(rules.len() as int) == rules);
    proof {
        if is_plain(s@) {
            lemma_plain_holds_none(s@);
        }
        assert forall|head: Seq<char>, value: Seq<char>| #[trigger]
            is_announced_secret(s@, head, value) implies out@ == head + "<redacted>"@ by {
            let none = Seq::<char>::empty();
            assert(none + head + value + none == s@);
            assert(holds_one_secret(s@, none, head, value, none));
            assert(none + head + "<redacted>"@ + none == head + "<redacted>"@);
        }
    }
    out
}

/// `value` with the secrets in each of its texts redacted. Keys, and values
/// that are no text, stay as they are.
pub open spec fn redacted_json(value: JsonView) -> JsonView
    decreases value,
{
    match value {
        JsonView::Text(s) => JsonView::Text(redacted(s)),
        JsonView::Array(items) => JsonView::Array(
            Seq::new(
                items.len(),
                |i: int|
                    if 0 <= i < items.len() {
                        redacted_json(items[i])
                    } else {
                        JsonView::Null
                    },
            ),
        ),
        JsonView::Object(members) => JsonView::Object(
            Seq::new(
                members.len(),
                |i: int|
                    if 0 <= i < members.len() {
                        MemberView { key: members[i].key, value: redacted_json(members[i].value) }
                    } else {
                        MemberView { key: Seq::empty(), value: JsonView::Null }
                    },
            ),
        ),
        _ => value,
    }
}

/// Whether every text in a JSON value is plain.
pub open spec fn is_plain_json(value: JsonView) -> bool
    decreases value,
{
    match value {
        JsonView::Text(s) => is_plain(s),
        JsonView::Array(items) => forall|i: int|
            0 <= i < items.len() ==> is_plain_json(#[trigger] items[i]),
        JsonView::Object(members) => forall|i: int|
            0 <= i < members.len() ==> is_plain_json((#[trigger] members[i]).value),
        _ => true,
    }
}

/// Redact the secrets in every text of a JSON value. A value with plain texts only
/// comes back unchanged, and every value keeps its shape: the same items and members, in
/// the same places, each with its own texts redacted.
pub fn redact_json_value(value: &Json) -> (r: Json)
    ensures
        r@ == redacted_json(value@),
        is_plain_json(value@) ==> r@ == value@,
        match (*value, r) {
            (Json::Null, Json::Null) => true,
            (Json::Bool(a), Json::Bool(b)) => a == b,
            (Json::Number(a), Json::Number(b)) => a@ == b@,
            (Json::Text(a), Json::Text(b)) => b@ == redacted(a@),
            (Json::Array(a), Json::Array(b)) => a@.len() == b@.len() && forall|i: int|
                0 <= i < a@.len() ==> (#[trigger] b@[i])@ == redacted_json(a@[i]@),
            (Json::Object(a), Json::Object(b)) => a@.len() == b@.len() && forall|i: int|
                0 <= i < a@.len() ==> (#[trigger] b@[i]).key@ == a@[i].key@ && b@[i].value@
                    == redacted_json(a@[i].value@),
            _ => false,
        },
    decreases value,
{
    match value {
        Json::Null => Json::Null,
        Json::Bool(b) => Json::Bool(*b),
        Json::Number(n) => Json::Number(n.clone()),
        Json::Text(s) => Json::Text(redact_secrets(s.as_str())),
        Json::Array(items) => {
            let mut out: Vec<Json> = Vec::new();
            let mut i: usize = 0;
            while i < items.len()
                invariant
                    i <= items@.len(),
                    *value == Json::Array(*items),
                    out@.len() == i,
                    forall|j: int| 0 <= j < i ==> (#[trigger] out@[j])@ == redacted_json(items@[j]@),
                    is_plain_json(value@) ==> forall|j: int|
                        0 <= j < i ==> (#[trigger] out@[j])@ == items@[j]@,
                decreases items@.len() - i,
            {
                assert(decreases_to!(*value => value->Array_0));
                assert(decreases_to!(value->Array_0 => value->Array_0@));
                assert(decreases_to!(value->Array_0@ => value->Array_0@[i as int]));
                assert(value@->Array_0[i as int] == items@[i as int]@);
                let item = redact_json_value(&items[i]);
                out.push(item);
                i = i + 1;
            }
            let r = Json::Array(out);
            assert(r@->Array_0 =~= redacted_json(value@)->Array_0);
            assert(is_plain_json(value@) ==> r@->Array_0 =~= value@->Array_0);
            r
        },
        Json::Object(members) => {
            let mut out: Vec<Member> = Vec::new();
            let mut i: usize = 0;
            while i < members.len()
                invariant
                    i <= members@.len(),
                    *value == Json::Object(*members),
                    out@.len() == i,
                    forall|j: int|
                        0 <= j < i ==> (#[trigger] out@[j]).key@ == members@[j].key@ && out@[j].value@
                            == redacted_json(members@[j].value@),
                    is_plain_json(value@) ==> forall|j: int|
                        0 <= j < i ==> (#[trigger] out@[j]).value@ == members@[j].value@,
                decreases members@.len() - i,
            {
                assert(decreases_to!(*value => value->Object_0));
                assert(decreases_to!(value->Object_0 => value->Object_0@));
                assert(decreases_to!(value->Object_0@ => value->Object_0@[i as int]));
                assert(decreases_to!(members@[i as int] => members@[i as int].value));
                assert(value@->Object_0[i as int].value == members@[i as int].value@);
                let redacted_value = redact_json_value(&members[i].value);
                out.push(Member { key: members[i].key.clone(), value: redacted_value });
                i = i + 1;
            }
            let r = Json::Object(out);
            assert(r@->Object_0 =~= redacted_json(value@)->Object_0);
            assert(is_plain_json(value@) ==> r@->Object_0 =~= value@->Object_0);
            r
        },
    }
}

// ── laws ───────────────────────────────────────────────────────────

/// Plain text announces no authorization either, which takes the word `bearer`.
pub proof fn law_plain_announces_no_authorization(text: Seq<char>)
    requires
        is_plain(text),
    ensures
        !announces_authorization(text),
{
}

/// A secret is set apart where `before` announces nothing and ends in white space, and the
/// value and what comes after it, from white space on, announce nothing: whatever the
/// value is, and wherever in a text the secret stands.
pub proof fn law_secret_in_plain_text(
    before: Seq<char>,
    head: Seq<char>,
    value: Seq<char>,
    after: Seq<char>,
)
    requires
        is_plain(before),
        before.len() == 0 || is_white_space(before.last()),
        is_head(head),
        is_value(value),
        after.len() == 0 || is_white_space(after.first()),
        is_plain(value + after),
    ensures
        holds_one_secret(before + head + value + after, before, head, value, after),
{
    let s = value + after;
    let n = value.len() as int;
    if after.len() > 0 && awaits_value(value) {
        reveal_strlit("bearer");
        let k = choose|k: int|
            0 <= k <= value.len() && (is_secret_flag(#[trigger] value.skip(k)) || folded(
                value.skip(k),
            ) == "bearer"@);
        assert(s.subrange(k, n) == value.skip(k));
        assert(s[n] == after[0]);
        if is_secret_flag(value.skip(k)) {
            reveal_strlit("--api-key");
            reveal_strlit("--api_key");
            reveal_strlit("--token");
            reveal_strlit("--password");
            reveal_strlit("--secret");
            assert(folded(value.skip(k)).len() == n - k);
            assert(announces_flag(s));
        } else {
            assert(folded(value.skip(k)).len() == n - k);
            assert(s.subrange(k, k + 6) == value.skip(k));
            assert(announces_bearer(s));
        }
    }
    if announces_bearer(after) {
        let i = choose|i: int|
            0 <= i < after.len() - 6 && folded(#[trigger] after.subrange(i, i + 6)) == "bearer"@
                && is_white_space(after[i + 6]);
        assert(s.subrange(n + i, n + i + 6) == after.subrange(i, i + 6));
    }
    if announces_flag(after) {
        let (i, k) = choose|i: int, k: int|
            0 <= i < k < after.len() && is_secret_flag(#[trigger] after.subrange(i, k)) && (
            after[k] == '=' || is_white_space(after[k]));
        assert(s.subrange(n + i, n + k) == after.subrange(i, k));
    }
    if announces_assignment(after) {
        let (i, k) = choose|i: int, k: int|
            0 <= i < k < after.len() && is_secret_name(#[trigger] after.subrange(i, k)) && after[k]
                == '=';
        assert(s.subrange(n + i, n + k) == after.subrange(i, k));
    }
}

/// A word of ASCII letters and signs is the same without regard to case.
proof fn lemma_folded(s: Seq<char>, word: Seq<char>)
    requires
        ascii_lower(s) == word,
        forall|i: int| 0 <= i < word.len() ==> (#[trigger] word[i]) as u32 <= 0x7f,
    ensures
        folded(s) == word,
{
    assert(s.len() == word.len());
    assert forall|i: int| 0 <= i < s.len() implies folded(s)[i] == word[i] by {
        assert(ascii_lower(s)[i] == word[i]);
        assert(word[i] as u32 <= 0x7f);
    }
    assert(folded(s) =~= word);
}

/// A secret is announced by its name and an equals sign, in any case of the letters.
pub proof fn law_assignment_announces(name: Seq<char>)
    requires
        ({
            let word = ascii_lower(name);
            ||| word == "api-key"@
            ||| word == "api_key"@
            ||| word == "apikey"@
            ||| word == "token"@
            ||| word == "password"@
            ||| word == "secret"@
        }),
    ensures
        is_head(name.push('=')),
{
    reveal_strlit("api-key");
    reveal_strlit("api_key");
    reveal_strlit("apikey");
    reveal_strlit("token");
    reveal_strlit("password");
    reveal_strlit("secret");
    lemma_folded(name, ascii_lower(name));
    assert(name.len() == ascii_lower(name).len());
    assert(name.push('=').drop_last() == name);
    assert(is_assignment_head(name.push('=')));
}

/// A secret is announced by its flag and an equals sign or white space, in any case of the
/// letters.
pub proof fn law_flag_announces(flag: Seq<char>, blank: Seq<char>)
    requires
        ({
            let word = ascii_lower(flag);
            ||| word == "--api-key"@
            ||| word == "--api_key"@
            ||| word == "--token"@
            ||| word == "--password"@
            ||| word == "--secret"@
        }),
        blank.len() > 0,
        forall|i: int| 0 <= i < blank.len() ==> is_white_space(#[trigger] blank[i]),
    ensures
        is_head(flag.push('=')),
        is_head(flag + blank),
{
    reveal_strlit("--api-key");
    reveal_strlit("--api_key");
    reveal_strlit("--token");
    reveal_strlit("--password");
    reveal_strlit("--secret");
    reveal_strlit("=");
    lemma_folded(flag, ascii_lower(flag));
    let n = flag.len() as int;
    assert(n == ascii_lower(flag).len());
    assert(flag.push('=').take(n) == flag);
    assert(flag.push('=').skip(n) == "="@);
    assert((flag + blank).take(n) == flag);
    assert((flag + blank).skip(n) == blank);
    assert(is_flag_head(flag.push('=')));
    assert(is_flag_head(flag + blank));
}

/// A secret is announced by the word `bearer` and white space, in any case of the letters,
/// and by the word `authorization` and a colon before that, with or without white space at
/// either side of the colon.
pub proof fn law_bearer_announces(
    word: Seq<char>,
    before_colon: Seq<char>,
    after_colon: Seq<char>,
    bearer: Seq<char>,
    blank: Seq<char>,
)
    requires
        ascii_lower(word) == "authorization"@,
        ascii_lower(bearer) == "bearer"@,
        is_blank(before_colon),
        is_blank(after_colon),
        is_blank(blank),
        blank.len() > 0,
    ensures
        is_head(bearer + blank),
        is_head(word + before_colon.push(':') + after_colon + (bearer + blank)),
{
    reveal_strlit("bearer");
    reveal_strlit("authorization");
    lemma_folded(bearer, "bearer"@);
    lemma_folded(word, "authorization"@);
    assert(bearer.len() == 6 && word.len() == 13) by {
        assert(ascii_lower(bearer).len() == bearer.len());
        assert(ascii_lower(word).len() == word.len());
    }
    let tail = bearer + blank;
    assert(tail.take(6) == bearer);
    assert(tail.skip(6) == blank);
    assert(is_bearer_head(tail));
    let s = word + before_colon.push(':') + after_colon + tail;
    let colon: int = 13 + before_colon.len() as int;
    let from: int = colon + 1 + after_colon.len() as int;
    assert(s.take(13) == word);
    assert(s.subrange(13, colon) == before_colon);
    assert(s.subrange(colon + 1, from) == after_colon);
    assert(s.skip(from) == tail);
    assert(is_authorization_head(s));
}

/// Whatever holds neither white space, semicolon nor ampersand is the value of a secret,
/// where there is anything of it.
pub proof fn law_value(value: Seq<char>)
    requires
        value.len() > 0,
        !value.contains(';'),
        !value.contains('&'),
        forall|i: int| 0 <= i < value.len() ==> !is_white_space(#[trigger] value[i]),
    ensures
        is_value(value),
{
    assert forall|i: int| 0 <= i < value.len() implies value[i] != ';' && value[i] != '&' by {
        assert(value.contains(value[i]));
    }
}

proof fn lemma_first_member_same_keys(
    a: Seq<MemberView>,
    b: Seq<MemberView>,
    key: Seq<char>,
)
    requires
        a.len() == b.len(),
        forall|i: int| 0 <= i < a.len() ==> (#[trigger] a[i]).key == b[i].key,
    ensures
        first_member(a, key) == first_member(b, key),
        0 <= first_member(a, key) <= a.len(),
    decreases a.len(),
{
    if a.len() > 0 {
        assert(a[0].key == b[0].key);
        let x = a.drop_first();
        let y = b.drop_first();
        assert forall|i: int| 0 <= i < x.len() implies (#[trigger] x[i]).key == y[i].key by {
            assert(x[i] == a[i + 1]);
        }
        lemma_first_member_same_keys(x, y, key);
    }
}

/// Redaction keeps the members of an object under their keys: what the redacted
/// object holds under a key is what the object held there, redacted.
pub proof fn law_redaction_keeps_members(value: JsonView, key: Seq<char>)
    ensures
        redacted_json(value).member(key) == match value.member(key) {
            Some(v) => Some(redacted_json(v)),
            None => None,
        },
        redacted_json(value).text_member(key) == match value.text_member(key) {
            Some(s) => Some(redacted(s)),
            None => None,
        },
{
    if let JsonView::Object(members) = value {
        let after = redacted_json(value)->Object_0;
        lemma_first_member_same_keys(members, after, key);
    }
}

/// Redaction keeps the members of an object in place, each under its key with its value
/// redacted, and adds none.
pub proof fn law_redaction_keeps_object(members: Seq<MemberView>)
    ensures
        redacted_json(JsonView::Object(members)) matches JsonView::Object(after) && after.len()
            == members.len() && forall|i: int|
            0 <= i < members.len() ==> (#[trigger] after[i]).key == members[i].key
                && after[i].value == redacted_json(members[i].value),
{
}

/// Redaction keeps the items of an array in place.
pub proof fn law_redaction_keeps_items(items: Seq<JsonView>)
    ensures
        redacted_json(JsonView::Array(items)) matches JsonView::Array(after) && after.len()
            == items.len() && forall|i: int|
            0 <= i < items.len() ==> #[trigger] after[i] == redacted_json(items[i]),
{
}

/// Redaction of a text in JSON is redaction of the text.
pub proof fn law_redaction_of_text(s: Seq<char>)
    ensures
        redacted_json(JsonView::Text(s)) == JsonView::Text(redacted(s)),
{
}

/// The value at a place in a JSON value: an item of an array or the value of a member of
/// an object at the first position of `path`, the one within that at the next, and so on.
pub open spec fn value_at(value: JsonView, path: Seq<int>) -> Option<JsonView>
    decreases path.len(),
{
    if path.len() == 0 {
        Some(value)
    } else {
        match value {
            JsonView::Array(items) => if 0 <= path[0] < items.len() {
                value_at(items[path[0]], path.drop_first())
            } else {
                None
            },
            JsonView::Object(members) => if 0 <= path[0] < members.len() {
                value_at(members[path[0]].value, path.drop_first())
            } else {
                None
            },
            _ => None,
        }
    }
}

/// However deep it lies, each text of the redacted value is the redaction of the text at
/// the same place, and there is nothing at a place where there was nothing.
pub proof fn law_redaction_reaches_every_place(value: JsonView, path: Seq<int>)
    ensures
        match value_at(value, path) {
            None => value_at(redacted_json(value), path) is None,
            Some(JsonView::Text(s)) => value_at(redacted_json(value), path) == Some(
                JsonView::Text(redacted(s)),
            ),
            Some(v) => value_at(redacted_json(value), path) == Some(redacted_json(v)) && !(
            redacted_json(v) is Text),
        },
    decreases path.len(),
{
    if path.len() > 0 {
        match value {
            JsonView::Array(items) => {
                if 0 <= path[0] < items.len() {
                    law_redaction_reaches_every_place(items[path[0]], path.drop_first());
                }
            },
            JsonView::Object(members) => {
                if 0 <= path[0] < members.len() {
                    law_redaction_reaches_every_place(members[path[0]].value, path.drop_first());
                }
            },
            _ => {},
        }
    }
}

/// Redaction leaves values without text as they are.
pub proof fn law_redaction_keeps_the_rest(value: JsonView)
    requires
        value is Null || value is Bool || value is Number,
    ensures
        redacted_json(value) == value,
{
}

} // verus!
