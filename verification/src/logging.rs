//! Text shown in logs: shortened previews and masked secrets.
use crate::text::{chars_of, copy_range, decimal_seq, push_all, push_str, string_of, usize_to_decimal};
use vstd::prelude::*;

verus! {

/// The first `max_chars` characters of `value`, with the full length noted when it was cut.
pub open spec fn preview_spec(value: Seq<char>, max_chars: nat) -> Seq<char> {
    if max_chars == 0 {
        Seq::empty()
    } else if value.len() <= max_chars {
        value
    } else {
        value.take(max_chars as int) + "… ("@ + decimal_seq(value.len()) + " chars total)"@
    }
}

pub fn preview_for_log(value: &str, max_chars: usize) -> (r: String)
    ensures
        r@ == preview_spec(value@, max_chars as nat),
{
    if max_chars == 0 {
        return string_of(Vec::<char>::new().as_slice());
    }
    let chars = chars_of(value);
    let total_chars = chars.len();
    if total_chars <= max_chars {
        return string_of(chars.as_slice());
    }
    let mut out = copy_range(chars.as_slice(), 0, max_chars);
    push_str(&mut out, "… (");
    let d = usize_to_decimal(total_chars);
    push_all(&mut out, d.as_slice());
    push_str(&mut out, " chars total)");
    string_of(out.as_slice())
}

/// A secret reduced to its length, plus its first and last four characters when it is
/// longer than eight.
pub open spec fn redact_spec(secret: Seq<char>) -> Seq<char> {
    let n = secret.len();
    if n == 0 {
        "<empty>"@
    } else if n <= 8 {
        "*** (len="@ + decimal_seq(n) + ")"@
    } else {
        secret.take(4) + "***"@ + secret.skip(n - 4) + " (len="@ + decimal_seq(n) + ")"@
    }
}

pub fn redact_secret(secret: &str) -> (r: String)
    ensures
        r@ == redact_spec(secret@),
{
    let chars = chars_of(secret);
    let total_chars = chars.len();
    if total_chars == 0 {
        return string_of(chars_of("<empty>").as_slice());
    }
    let d = usize_to_decimal(total_chars);
    let mut out: Vec<char> = Vec::new();
    if total_chars <= 8 {
        push_str(&mut out, "*** (len=");
        push_all(&mut out, d.as_slice());
        push_str(&mut out, ")");
        return string_of(out.as_slice());
    }
    let prefix = copy_range(chars.as_slice(), 0, 4);
    let suffix = copy_range(chars.as_slice(), total_chars - 4, total_chars);
    push_all(&mut out, prefix.as_slice());
    push_str(&mut out, "***");
    push_all(&mut out, suffix.as_slice());
    push_str(&mut out, " (len=");
    push_all(&mut out, d.as_slice());
    push_str(&mut out, ")");
    string_of(out.as_slice())
}

/// A preview never shows more of the value than `max_chars` characters of it.
pub proof fn lemma_preview_keeps_prefix(value: Seq<char>, max_chars: nat)
    ensures
        max_chars > 0 && value.len() <= max_chars ==> preview_spec(value, max_chars) == value,
        max_chars > 0 && value.len() > max_chars ==> preview_spec(value, max_chars).take(
            max_chars as int,
        ) == value.take(max_chars as int),
        max_chars == 0 ==> preview_spec(value, max_chars).len() == 0,
{
    if max_chars > 0 && value.len() > max_chars {
        let p = preview_spec(value, max_chars);
        assert(p.take(max_chars as int) =~= value.take(max_chars as int));
    }
}

/// A redacted secret longer than eight characters shows only its first four and last four.
pub proof fn lemma_redaction_shows_at_most_eight(secret: Seq<char>)
    requires
        secret.len() > 8,
    ensures
        redact_spec(secret) == secret.take(4) + "***"@ + secret.skip(secret.len() - 4) + " (len="@
            + decimal_seq(secret.len()) + ")"@,
        secret.take(4).len() + secret.skip(secret.len() - 4).len() == 8,
{
}

} // verus!
