//! Email templates and the placeholder renderer.
//!
//! A template is plain text with `{name}` placeholders; `render_template`
//! substitutes each given key by its value, one key after the other, each
//! pass replacing every non-overlapping occurrence from the left.

use vstd::prelude::*;
use vstd::string::StrSliceExecFns;
use vstd::string::StringExecFns;

verus! {

/// `s` with every non-overlapping occurrence of `k`, scanned from the
/// left, replaced by `v`. An empty key replaces nothing.
pub open spec fn replace_all(s: Seq<char>, k: Seq<char>, v: Seq<char>) -> Seq<char>
    decreases s.len(),
{
    if k.len() == 0 {
        s
    } else if s.len() < k.len() {
        s
    } else if s.subrange(0, k.len() as int) == k {
        v + replace_all(s.skip(k.len() as int), k, v)
    } else {
        seq![s[0]] + replace_all(s.skip(1), k, v)
    }
}

/// The template after the first `n` replacement pairs have been applied in
/// order.
pub open spec fn render_upto(t: Seq<char>, reps: Seq<(&str, &str)>, n: int) -> Seq<char>
    decreases n,
{
    if n <= 0 {
        t
    } else {
        replace_all(render_upto(t, reps, n - 1), reps[n - 1].0@, reps[n - 1].1@)
    }
}

/// The template with every replacement pair applied in order.
pub open spec fn render_spec(t: Seq<char>, reps: Seq<(&str, &str)>) -> Seq<char> {
    render_upto(t, reps, reps.len() as int)
}

/// Whether `key` occurs in `s` at character position `i`.
fn match_at(s: &str, i: usize, key: &str, n: usize, klen: usize) -> (b: bool)
    requires
        n == s@.len(),
        klen == key@.len(),
        i + klen <= n,
    ensures
        b == (s@.subrange(i as int, i + klen) == key@),
{
    let mut t: usize = 0;
    while t < klen
        invariant
            n == s@.len(),
            klen == key@.len(),
            i + klen <= n,
            t <= klen,
            forall|u: int| 0 <= u < t ==> s@[i + u] == key@[u],
        decreases klen - t,
    {
        if s.get_char(i + t) != key.get_char(t) {
            proof {
                assert(s@.subrange(i as int, i + klen)[t as int] != key@[t as int]);
            }
            return false;
        }
        t += 1;
    }
    proof {
        assert(s@.subrange(i as int, i + klen) =~= key@);
    }
    true
}

/// `s` with every occurrence of `key` replaced by `value`, exactly as
/// `replace_all` states.
fn replace_str(s: &str, key: &str, value: &str) -> (r: String)
    ensures
        r@ == replace_all(s@, key@, value@),
{
    let klen = key.unicode_len();
    if klen == 0 {
        return s.to_owned();
    }
    let n = s.unicode_len();
    let mut result = String::new();
    proof {
        assert(s@.skip(0) =~= s@);
        assert(Seq::<char>::empty() + replace_all(s@, key@, value@) =~= replace_all(
            s@,
            key@,
            value@,
        ));
    }
    let mut i: usize = 0;
    while i < n
        invariant
            n == s@.len(),
            klen == key@.len(),
            klen >= 1,
            i <= n,
            replace_all(s@, key@, value@) == result@ + replace_all(s@.skip(i as int), key@, value@),
        decreases n - i,
    {
        let ghost tail = s@.skip(i as int);
        let hit = if klen <= n - i {
            match_at(s, i, key, n, klen)
        } else {
            false
        };
        if hit {
            proof {
                assert(tail.subrange(0, klen as int) =~= s@.subrange(i as int, i + klen));
                assert(tail.skip(klen as int) =~= s@.skip(i + klen));
            }
            result.append(value);
            i += klen;
        } else {
            proof {
                if i + klen <= n {
                    assert(tail.subrange(0, klen as int) =~= s@.subrange(i as int, i + klen));
                }
                assert(tail.skip(1) =~= s@.skip(i + 1));
                assert(seq![tail[0]] =~= s@.subrange(i as int, i + 1));
            }
            let piece = s.substring_char(i, i + 1);
            result.append(piece);
            i += 1;
        }
    }
    proof {
        assert(s@.skip(n as int) =~= Seq::<char>::empty());
        assert(replace_all(Seq::<char>::empty(), key@, value@) =~= Seq::<char>::empty());
        assert(result@ + Seq::<char>::empty() =~= result@);
    }
    result
}

/// Renders a template by applying each `(key, value)` pair in order.
pub fn render_template(template: &str, replacements: &[(&str, &str)]) -> (r: String)
    ensures
        r@ == render_spec(template@, replacements@),
{
    let mut result = template.to_owned();
    let count = replacements.len();
    let mut k: usize = 0;
    while k < count
        invariant
            count == replacements@.len(),
            k <= count,
            result@ == render_upto(template@, replacements@, k as int),
        decreases count - k,
    {
        let pair = replacements[k];
        result = replace_str(result.as_str(), pair.0, pair.1);
        k += 1;
    }
    result
}

pub fn get_email_verification_html() -> (r: &'static str)
    ensures
        r@
            == "<html><body><p>Hi {user_name},</p><p>Please verify your email address by opening <a href=\"{verification_link}\">{verification_link}</a>.</p></body></html>"@,
{
    "<html><body><p>Hi {user_name},</p><p>Please verify your email address by opening <a href=\"{verification_link}\">{verification_link}</a>.</p></body></html>"
}

pub fn get_email_verification_text() -> (r: &'static str)
    ensures
        r@
            == "Hi {user_name},\n\nPlease verify your email address by opening {verification_link}\n"@,
{
    "Hi {user_name},\n\nPlease verify your email address by opening {verification_link}\n"
}

pub fn get_password_reset_html() -> (r: &'static str)
    ensures
        r@
            == "<html><body><p>Hi {user_name},</p><p>You can reset your password at <a href=\"{reset_link}\">{reset_link}</a>.</p></body></html>"@,
{
    "<html><body><p>Hi {user_name},</p><p>You can reset your password at <a href=\"{reset_link}\">{reset_link}</a>.</p></body></html>"
}

pub fn get_password_reset_text() -> (r: &'static str)
    ensures
        r@ == "Hi {user_name},\n\nYou can reset your password at {reset_link}\n"@,
{
    "Hi {user_name},\n\nYou can reset your password at {reset_link}\n"
}

pub fn get_password_reset_confirmation_html() -> (r: &'static str)
    ensures
        r@
            == "<html><body><p>Hi {user_name},</p><p>Your password has been changed. If this was not you, contact support at once.</p></body></html>"@,
{
    "<html><body><p>Hi {user_name},</p><p>Your password has been changed. If this was not you, contact support at once.</p></body></html>"
}

pub fn get_password_reset_confirmation_text() -> (r: &'static str)
    ensures
        r@
            == "Hi {user_name},\n\nYour password has been changed. If this was not you, contact support at once.\n"@,
{
    "Hi {user_name},\n\nYour password has been changed. If this was not you, contact support at once.\n"
}

} // verus!
