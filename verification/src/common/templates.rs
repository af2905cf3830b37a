//! The template engine that renders sudoers files, and the templates this
//! library hands it: text in which `{{ username }}` is the only tag.

use vstd::prelude::*;
use vstd::string::*;
use crate::text::{chars_of, occurs_at};

verus! {

/// What the template engine reports when a template cannot be rendered.
#[verifier::external_type_specification]
#[verifier::external_body]
pub struct ExTeraError(tera::Error);

/// The whitespace that the template engine skips inside a tag.
pub open spec fn is_tag_space(c: char) -> bool {
    c == ' ' || c == '\t' || c == '\r' || c == '\n'
}

/// The number of whitespace characters at the front of `s`.
pub open spec fn space_prefix(s: Seq<char>) -> nat
    decreases s.len(),
{
    if s.len() > 0 && is_tag_space(s[0]) {
        1 + space_prefix(s.skip(1))
    } else {
        0
    }
}

/// The variable name the template sees the user under.
pub open spec fn username_word() -> Seq<char> {
    seq!['u', 's', 'e', 'r', 'n', 'a', 'm', 'e']
}

/// The length of the tag `{{ username }}` at the front of `t`, with any
/// whitespace around the name, or 0 where `t` does not begin with one.
pub open spec fn tag_len(t: Seq<char>) -> nat {
    if t.len() >= 2 && t[0] == '{' && t[1] == '{' {
        let a = space_prefix(t.skip(2));
        let r = t.skip((2 + a) as int);
        if r.len() >= 8 && r.take(8) == username_word() {
            let b = space_prefix(r.skip(8));
            let r2 = r.skip((8 + b) as int);
            if r2.len() >= 2 && r2[0] == '}' && r2[1] == '}' {
                12 + a + b
            } else {
                0
            }
        } else {
            0
        }
    } else {
        0
    }
}

/// The position of the first `#}` in `t` at or after `i`, or -1.
pub open spec fn comment_close(t: Seq<char>, i: int) -> int
    decreases t.len() - i,
{
    if i < 0 || i + 1 >= t.len() {
        -1
    } else if t[i] == '#' && t[i + 1] == '}' {
        i
    } else {
        comment_close(t, i + 1)
    }
}

/// The length of a comment `{# ... #}` at the front of `t` that trims no
/// whitespace (it neither opens with `{#-` nor closes with `-#}`) and is not
/// empty, or 0 where `t` does not begin with one.
pub open spec fn comment_len(t: Seq<char>) -> nat {
    if t.len() >= 3 && t[0] == '{' && t[1] == '#' && t[2] != '-' {
        let k = comment_close(t, 2);
        if k > 2 && t[k - 1] != '-' {
            (k + 2) as nat
        } else {
            0
        }
    } else {
        0
    }
}

/// A plain template: text in which every `{` opens either a tag
/// `{{ username }}` (with any whitespace around the name) or a comment that
/// trims no whitespace. Such a template has no blocks, literals, operators,
/// filters, functions or macros.
pub open spec fn plain_template(text: Seq<char>) -> bool
    decreases text.len(),
{
    if text.len() == 0 {
        true
    } else if 0 < tag_len(text) <= text.len() {
        plain_template(text.skip(tag_len(text) as int))
    } else if 0 < comment_len(text) <= text.len() {
        plain_template(text.skip(comment_len(text) as int))
    } else {
        text[0] != '{' && plain_template(text.skip(1))
    }
}

/// `text` with every tag replaced by `value` and every comment left out.
pub open spec fn fill_template(text: Seq<char>, value: Seq<char>) -> Seq<char>
    decreases text.len(),
{
    if text.len() == 0 {
        Seq::empty()
    } else if 0 < tag_len(text) <= text.len() {
        value + fill_template(text.skip(tag_len(text) as int), value)
    } else if 0 < comment_len(text) <= text.len() {
        fill_template(text.skip(comment_len(text) as int), value)
    } else {
        seq![text[0]] + fill_template(text.skip(1), value)
    }
}

/// Renders `text` as the template `name` with a context in which `key`
/// stands for the text `value` (`tera::Tera::add_raw_template` on a
/// `tera::Tera::default()`, `tera::Context::insert`, then
/// `tera::Tera::render`).
///
/// Claimed of tera: a plain template (see [`plain_template`]) parses (its
/// text outside tags and comments holds no `{`, so it is text nodes, kept as
/// they are; a comment without `-` at either end renders to nothing and
/// trims nothing), and each tag is a variable block that looks up `username`
/// in the context and writes the string as it is; `sudoers.j2` does not end
/// in `.html`, `.htm` or `.xml`, so nothing is escaped. Such a rendering
/// reads no environment, clock or randomness, and cannot reach the float,
/// macro or include paths of the renderer that can panic or recurse without
/// end. Other templates are not handed to it.
#[verifier::external_body]
pub(crate) fn render_template(name: &str, text: &str, key: &str, value: &str)
    -> (rendered: Result<String, tera::Error>)
    requires
        name@ == "sudoers.j2"@,
        key@ == "username"@,
        plain_template(text@),
    ensures
        rendered is Ok,
        rendered is Ok ==> rendered->Ok_0@ == fill_template(text@, value@),
{
    let mut templates = tera::Tera::default();
    templates.add_raw_template(name, text)?;
    let mut context = tera::Context::new();
    context.insert(key, value);
    templates.render(name, &context)
}

/// The number of whitespace characters in `t` from `start` on.
fn space_count(t: &Vec<char>, start: usize) -> (n: usize)
    requires
        start <= t@.len(),
    ensures
        n == space_prefix(t@.skip(start as int)),
        start + n <= t@.len(),
{
    let mut j = start;
    while j < t.len() && (t[j] == ' ' || t[j] == '\t' || t[j] == '\r' || t[j] == '\n')
        invariant
            start <= j <= t@.len(),
            space_prefix(t@.skip(start as int)) == (j - start) + space_prefix(t@.skip(j as int)),
        decreases t@.len() - j,
    {
        assert(t@.skip(j as int).skip(1) =~= t@.skip(j + 1));
        assert(t@.skip(j as int)[0] == t@[j as int]);
        j = j + 1;
    }
    if j < t.len() {
        assert(t@.skip(j as int)[0] == t@[j as int]);
    }
    j - start
}

/// The length of the tag at position `i` of `t` (see [`tag_len`]).
fn tag_len_at(t: &Vec<char>, word: &Vec<char>, i: usize) -> (n: usize)
    requires
        i <= t@.len(),
        word@ == username_word(),
    ensures
        n == tag_len(t@.skip(i as int)),
        i + n <= t@.len(),
{
    let ghost s = t@.skip(i as int);
    if !(t.len() - i >= 2 && t[i] == '{' && t[i + 1] == '{') {
        return 0;
    }
    assert(s[0] == '{' && s[1] == '{');
    let a = space_count(t, i + 2);
    assert(s.skip(2) =~= t@.skip(i + 2));
    let p = i + 2 + a;
    let ghost r = s.skip((2 + a) as int);
    assert(r =~= t@.skip(p as int));
    if !(t.len() - p >= 8 && occurs_at(t, word, p)) {
        proof {
            if r.len() >= 8 {
                assert(r.take(8) =~= t@.subrange(p as int, p + 8));
            }
        }
        return 0;
    }
    assert(r.take(8) =~= t@.subrange(p as int, p + 8));
    let b = space_count(t, p + 8);
    assert(r.skip(8) =~= t@.skip(p + 8));
    let q = p + 8 + b;
    let ghost r2 = r.skip((8 + b) as int);
    assert(r2 =~= t@.skip(q as int));
    if t.len() - q >= 2 && t[q] == '}' && t[q + 1] == '}' {
        assert(r2[0] == '}' && r2[1] == '}');
        12 + a + b
    } else {
        proof {
            if r2.len() >= 2 {
                assert(r2[0] == t@[q as int] && r2[1] == t@[q + 1]);
            }
        }
        0
    }
}

/// The length of the comment at position `i` of `t` (see [`comment_len`]).
fn comment_len_at(t: &Vec<char>, i: usize) -> (n: usize)
    requires
        i <= t@.len(),
    ensures
        n == comment_len(t@.skip(i as int)),
        i + n <= t@.len(),
{
    let ghost s = t@.skip(i as int);
    if !(t.len() - i >= 3 && t[i] == '{' && t[i + 1] == '#' && t[i + 2] != '-') {
        proof {
            if s.len() >= 3 {
                assert(s[0] == t@[i as int] && s[1] == t@[i + 1] && s[2] == t@[i + 2]);
            }
        }
        return 0;
    }
    assert(s[0] == '{' && s[1] == '#' && s[2] != '-');
    let mut j = i + 2;
    while j < t.len() - 1 && !(t[j] == '#' && t[j + 1] == '}')
        invariant
            s == t@.skip(i as int),
            i + 2 <= j <= t@.len(),
            comment_close(s, 2) == comment_close(s, j - i),
        decreases t@.len() - j,
    {
        assert(s[j - i] == t@[j as int] && s[j - i + 1] == t@[j + 1]);
        j = j + 1;
    }
    if j < t.len() - 1 {
        assert(s[j - i] == t@[j as int] && s[j - i + 1] == t@[j + 1]);
        assert(comment_close(s, 2) == j - i);
        if j > i + 2 && t[j - 1] != '-' {
            assert(s[j - i - 1] == t@[j - 1]);
            return j - i + 2;
        }
        if j > i + 2 {
            assert(s[j - i - 1] == t@[j - 1]);
        }
        0
    } else {
        assert(comment_close(s, 2) == -1);
        0
    }
}

/// Whether `text` is a plain template.
pub fn is_plain_template(text: &str) -> (res: bool)
    ensures
        res == plain_template(text@),
{
    let t = chars_of(text);
    let word_text = "username";
    proof {
        reveal_strlit("username");
        assert(word_text@ =~= username_word());
    }
    let word = chars_of(word_text);
    let n = t.len();
    let mut i: usize = 0;
    assert(t@.skip(0) =~= t@);
    while i < n
        invariant
            t@ == text@,
            word@ == username_word(),
            n == t@.len(),
            i <= n,
            plain_template(text@) == plain_template(text@.skip(i as int)),
        decreases n - i,
    {
        let ghost rest = text@.skip(i as int);
        let k = tag_len_at(&t, &word, i);
        if k > 0 {
            assert(rest.skip(k as int) =~= text@.skip(i + k));
            i = i + k;
        } else {
            let c = comment_len_at(&t, i);
            if c > 0 {
                assert(rest.skip(c as int) =~= text@.skip(i + c));
                i = i + c;
            } else {
                assert(rest[0] == t@[i as int]);
                if t[i] == '{' {
                    return false;
                }
                assert(rest.skip(1) =~= text@.skip(i + 1));
                i = i + 1;
            }
        }
    }
    assert(text@.skip(n as int).len() == 0);
    true
}

} // verus!
