//! The parts of the AI assistant's features that decide and compute: when
//! the assistant can be used, where it is reached, which objects can be
//! summarised, the messages sent to it, and the cleaning of its answers.
use vstd::prelude::*;
use vstd::string::*;
use vstd::utf8::{decode_utf8, encode_utf8, is_char_boundary};
use crate::text::{
    chars_of, decimal, ends_with, has_prefix, has_suffix, push_chars, push_decimal, push_str, slice_chars,
    starts_with, str_eq, string_of, trim_chars, trim_ws,
};

verus! {

broadcast use vstd::utf8::group_utf8_lib;

/// `s` without the fences a model may wrap its answer in: the text is
/// trimmed, a leading "```json" (else "```") and a trailing "```" are
/// removed, and the rest is trimmed again.
pub open spec fn strip_fences_spec(s: Seq<char>) -> Seq<char> {
    let t = trim_ws(s);
    let a = if has_prefix(t, "```json"@) {
        t.skip(7)
    } else if has_prefix(t, "```"@) {
        t.skip(3)
    } else {
        t
    };
    let b = if has_suffix(a, "```"@) {
        a.take(a.len() - 3)
    } else {
        a
    };
    trim_ws(b)
}

/// Removes the code fences around a model's answer.
pub fn strip_fences(content: &str) -> (r: String)
    ensures
        r@ == strip_fences_spec(content@),
{
    proof {
        reveal_strlit("```json");
        reveal_strlit("```");
    }
    let t = trim_chars(chars_of(content).as_slice());
    let fj = chars_of("```json");
    let f = chars_of("```");
    let a = if starts_with(t.as_slice(), fj.as_slice()) {
        slice_chars(t.as_slice(), 7, t.len())
    } else if starts_with(t.as_slice(), f.as_slice()) {
        slice_chars(t.as_slice(), 3, t.len())
    } else {
        t
    };
    let b = if ends_with(a.as_slice(), f.as_slice()) {
        slice_chars(a.as_slice(), 0, a.len() - 3)
    } else {
        a
    };
    let r = trim_chars(b.as_slice());
    proof {
        let tt = trim_ws(content@);
        assert(tt.skip(7) =~= tt.subrange(7, tt.len() as int));
        assert(tt.skip(3) =~= tt.subrange(3, tt.len() as int));
    }
    string_of(r.as_slice())
}

/// `s` without all of its trailing `c` characters.
pub open spec fn trim_trailing(s: Seq<char>, c: char) -> Seq<char>
    decreases s.len(),
{
    if s.len() > 0 && s.last() == c {
        trim_trailing(s.drop_last(), c)
    } else {
        s
    }
}

/// `s` without the repetitions of the non-empty `p` it starts with.
pub open spec fn trim_leading_text(s: Seq<char>, p: Seq<char>) -> Seq<char>
    decreases s.len(),
{
    if p.len() > 0 && has_prefix(s, p) {
        trim_leading_text(s.skip(p.len() as int), p)
    } else {
        s
    }
}

/// The host and port of the assistant's endpoint: trailing slashes are
/// removed, then leading `http://`, then leading `https://`.
pub open spec fn host_port_spec(endpoint: Seq<char>) -> Seq<char> {
    trim_leading_text(trim_leading_text(trim_trailing(endpoint, '/'), "http://"@), "https://"@)
}

fn trim_trailing_exec(v: Vec<char>, c: char) -> (r: Vec<char>)
    ensures
        r@ == trim_trailing(v@, c),
{
    let mut n = v.len();
    assert(v@.take(n as int) =~= v@);
    while n > 0 && v[n - 1] == c
        invariant
            n <= v@.len(),
            trim_trailing(v@.take(n as int), c) == trim_trailing(v@, c),
        decreases n,
    {
        assert(v@.take(n as int).drop_last() =~= v@.take(n - 1));
        n = n - 1;
    }
    assert(v@.take(n as int) =~= v@.subrange(0, n as int));
    slice_chars(v.as_slice(), 0, n)
}

fn trim_leading_exec(v: Vec<char>, p: &[char]) -> (r: Vec<char>)
    ensures
        r@ == trim_leading_text(v@, p@),
{
    if p.len() == 0 {
        return v;
    }
    let mut start: usize = 0;
    assert(v@.skip(0) =~= v@);
    while start <= v.len() && starts_with(slice_chars(v.as_slice(), start, v.len()).as_slice(), p)
        invariant
            start <= v@.len(),
            p@.len() > 0,
            trim_leading_text(v@.skip(start as int), p@) == trim_leading_text(v@, p@),
        decreases v@.len() - start,
    {
        assert(v@.subrange(start as int, v@.len() as int) =~= v@.skip(start as int));
        assert(v@.skip(start as int).skip(p@.len() as int) =~= v@.skip(start + p@.len()));
        start = start + p.len();
    }
    assert(v@.subrange(start as int, v@.len() as int) =~= v@.skip(start as int));
    slice_chars(v.as_slice(), start, v.len())
}

/// The host and port a connection to the assistant is opened to.
pub fn llm_host_port(api_endpoint: &str) -> (r: String)
    ensures
        r@ == host_port_spec(api_endpoint@),
{
    let base = trim_trailing_exec(chars_of(api_endpoint), '/');
    let h1 = trim_leading_exec(base, chars_of("http://").as_slice());
    let h2 = trim_leading_exec(h1, chars_of("https://").as_slice());
    string_of(h2.as_slice())
}

/// Why the assistant cannot be used.
#[derive(Debug, Clone, Copy, PartialEq, Eq, Structural)]
pub enum AiUnavailable {
    Disabled,
    NoModel,
}

impl AiUnavailable {
    /// The message the refusal is answered with (status 400).
    pub fn message(self) -> (r: &'static str)
        ensures
            r@ == match self {
                AiUnavailable::Disabled => "AI features are not enabled"@,
                AiUnavailable::NoModel => "No AI model selected. Please configure a model in Settings."@,
            },
    {
        match self {
            AiUnavailable::Disabled => "AI features are not enabled",
            AiUnavailable::NoModel => "No AI model selected. Please configure a model in Settings.",
        }
    }
}

/// Whether the assistant can be used with this configuration: it must be
/// enabled, and a model must be chosen.
pub fn ai_readiness(enabled: bool, model: &str) -> (r: Result<(), AiUnavailable>)
    ensures
        !enabled ==> r == Err::<(), AiUnavailable>(AiUnavailable::Disabled),
        enabled && model@.len() == 0 ==> r == Err::<(), AiUnavailable>(AiUnavailable::NoModel),
        enabled && model@.len() > 0 ==> r is Ok,
{
    if !enabled {
        return Err(AiUnavailable::Disabled);
    }
    if model.unicode_len() == 0 {
        return Err(AiUnavailable::NoModel);
    }
    Ok(())
}

/// The content types whose objects can be summarised.
pub open spec fn is_text_type(ct: Seq<char>) -> bool {
    has_prefix(ct, "text/"@) || ct == "application/json"@ || ct == "application/xml"@
        || ct == "application/yaml"@ || ct == "application/javascript"@
}

/// Whether an object of this content type can be summarised.
pub fn is_text_content_type(ct: &str) -> (r: bool)
    ensures
        r == is_text_type(ct@),
{
    let v = chars_of(ct);
    starts_with(v.as_slice(), chars_of("text/").as_slice()) || str_eq(ct, "application/json")
        || str_eq(ct, "application/xml") || str_eq(ct, "application/yaml") || str_eq(ct, "application/javascript")
}

/// The largest part of an object's text sent to be summarised, in bytes.
pub open spec fn excerpt_limit() -> nat {
    4000
}

/// The part of a text sent to be summarised: its first 4000 bytes.  The
/// text must not cut a character there.
pub fn summary_excerpt(text: &str) -> (r: &str)
    requires
        encode_utf8(text@).len() <= usize::MAX,
        encode_utf8(text@).len() > 4000 ==> is_char_boundary(encode_utf8(text@), 4000),
    ensures
        encode_utf8(text@).len() <= 4000 ==> r@ == text@,
        encode_utf8(text@).len() > 4000 ==> r@ == decode_utf8(encode_utf8(text@).subrange(0, 4000)),
{
    assert(text.spec_bytes() == encode_utf8(text@));
    if text.len() > 4000 {
        let (head, _) = text.split_at(4000);
        assert(head.spec_bytes() == encode_utf8(head@));
        assert(decode_utf8(encode_utf8(head@)) == head@);
        assert(head.spec_bytes() == encode_utf8(text@).subrange(0, 4000));
        assert(head@ == decode_utf8(encode_utf8(text@).subrange(0, 4000)));
        head
    } else {
        text
    }
}

/// The message that asks for a summary of an object's text.
pub open spec fn summary_message(key: Seq<char>, excerpt: Seq<char>) -> Seq<char> {
    "Filename: "@ + key + "\nContent:\n"@ + excerpt
}

/// Builds the message that asks for a summary.
pub fn summary_prompt(key: &str, excerpt: &str) -> (r: String)
    ensures
        r@ == summary_message(key@, excerpt@),
{
    let mut s = String::new();
    push_str(&mut s, "Filename: ");
    push_str(&mut s, key);
    push_str(&mut s, "\nContent:\n");
    push_str(&mut s, excerpt);
    s
}

/// A content type as the messages show it: "unknown" when there is none.
pub open spec fn shown_type(ct: Option<String>) -> Seq<char> {
    match ct {
        Some(t) => t@,
        None => "unknown"@,
    }
}

/// The message that asks for the tags of one object.
pub open spec fn tag_message(key: Seq<char>, ct: Option<String>, size: u64) -> Seq<char> {
    "Filename: "@ + key + "\nContent-Type: "@ + shown_type(ct) + "\nSize: "@ + decimal(size as nat) + " bytes"@
}

fn push_shown_type(s: &mut String, ct: &Option<String>)
    ensures
        final(s)@ == old(s)@ + shown_type(*ct),
{
    match ct {
        Some(t) => push_str(s, t.as_str()),
        None => push_str(s, "unknown"),
    }
}

fn push_size(s: &mut String, n: u64)
    ensures
        final(s)@ == old(s)@ + decimal(n as nat),
{
    let mut d: Vec<char> = Vec::new();
    push_decimal(&mut d, n);
    assert(d@ =~= decimal(n as nat));
    push_chars(s, d.as_slice());
}

/// Builds the message that asks for the tags of one object.
pub fn tag_prompt(key: &str, content_type: &Option<String>, size: u64) -> (r: String)
    ensures
        r@ == tag_message(key@, *content_type, size),
{
    let mut s = String::new();
    push_str(&mut s, "Filename: ");
    push_str(&mut s, key);
    push_str(&mut s, "\nContent-Type: ");
    push_shown_type(&mut s, content_type);
    push_str(&mut s, "\nSize: ");
    push_size(&mut s, size);
    push_str(&mut s, " bytes");
    s
}

/// An object as a bulk tagging request lists it.
pub struct TagEntry {
    pub key: String,
    pub content_type: Option<String>,
    pub size: u64,
}

/// One line of a bulk tagging request.
pub open spec fn tag_line(e: TagEntry) -> Seq<char> {
    "- Filename: "@ + e.key@ + ", Content-Type: "@ + shown_type(e.content_type) + ", Size: "@ + decimal(e.size as nat)
}

/// The lines of a bulk tagging request, one per object, separated by line breaks.
pub open spec fn tag_lines(es: Seq<TagEntry>) -> Seq<char>
    decreases es.len(),
{
    if es.len() == 0 {
        Seq::empty()
    } else if es.len() == 1 {
        tag_line(es[0])
    } else {
        tag_lines(es.drop_last()) + "\n"@ + tag_line(es.last())
    }
}

/// Builds the message that asks for the tags of a batch of objects.
pub fn bulk_tag_prompt(entries: &[TagEntry]) -> (r: String)
    ensures
        r@ == tag_lines(entries@),
{
    let mut s = String::new();
    let mut i: usize = 0;
    while i < entries.len()
        invariant
            i <= entries@.len(),
            s@ == tag_lines(entries@.take(i as int)),
        decreases entries.len() - i,
    {
        let ghost prev = s@;
        assert(entries@.take(i as int + 1).drop_last() =~= entries@.take(i as int));
        if i > 0 {
            push_str(&mut s, "\n");
        }
        let e = &entries[i];
        push_str(&mut s, "- Filename: ");
        push_str(&mut s, e.key.as_str());
        push_str(&mut s, ", Content-Type: ");
        push_shown_type(&mut s, &e.content_type);
        push_str(&mut s, ", Size: ");
        push_size(&mut s, e.size);
        proof {
            let t = entries@.take(i as int + 1);
            assert(t.last() == entries@[i as int]);
            if i == 0 {
                assert(prev.len() == 0);
                assert(s@ =~= tag_line(t[0]));
            } else {
                assert(s@ =~= prev + "\n"@ + tag_line(t.last()));
            }
        }
        i = i + 1;
    }
    assert(entries@.take(entries@.len() as int) =~= entries@);
    s
}

} // verus!
