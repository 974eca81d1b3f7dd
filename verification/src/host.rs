//! Host-label validation used by endpoint resolution: a label is a
//! non-empty run of alphanumeric characters and hyphens, not starting with
//! a hyphen and at most 63 bytes long; optionally a dot-separated sequence
//! of such labels.

use vstd::prelude::*;
use vstd::string::StrSliceExecFns;

verus! {

/// Collects diagnostic messages for the caller; validation reports why a
/// label was rejected without failing abruptly.
pub struct DiagnosticCollector {
    messages: Vec<String>,
}

impl View for DiagnosticCollector {
    type V = Seq<Seq<char>>;

    closed spec fn view(&self) -> Seq<Seq<char>> {
        self.messages@.map_values(|m: String| m@)
    }
}

impl DiagnosticCollector {
    /// An empty collector.
    pub fn new() -> (r: DiagnosticCollector)
        ensures
            r@ == Seq::<Seq<char>>::empty(),
    {
        let r = DiagnosticCollector { messages: Vec::new() };
        proof {
            assert(r@ =~= Seq::<Seq<char>>::empty());
        }
        r
    }

    /// Appends one diagnostic message.
    pub fn report_error(&mut self, msg: &str)
        ensures
            final(self)@ == old(self)@.push(msg@),
    {
        self.messages.push(msg.to_owned());
        proof {
            assert(self@ =~= old(self)@.push(msg@));
        }
    }

    /// How many diagnostics have been collected.
    pub fn error_count(&self) -> (n: usize)
        ensures
            n == self@.len(),
    {
        self.messages.len()
    }
}

/// Whether the character counts as alphanumeric under Unicode.  Named
/// rather than spelled out: the Unicode category tables are outside this
/// library.
pub uninterp spec fn is_unicode_alphanumeric(c: char) -> bool;

/// Relies on `char::is_alphanumeric` from std: whether the character lies
/// in one of the Unicode letter or number general categories, a function of
/// the character alone.
#[verifier::external_body]
fn char_is_alphanumeric(c: char) -> (r: bool)
    ensures
        r == is_unicode_alphanumeric(c),
{
    c.is_alphanumeric()
}

/// A single valid host label: non-empty, at most 63 bytes in UTF-8, made
/// of alphanumeric characters and hyphens, and not starting with a hyphen.
pub open spec fn valid_label_part(s: Seq<char>) -> bool {
    &&& s.len() != 0
    &&& vstd::utf8::encode_utf8(s).len() <= 63
    &&& s[0] != '-'
    &&& forall|i: int|
        0 <= i < s.len() ==> is_unicode_alphanumeric(#[trigger] s[i]) || s[i] == '-'
}

/// Position of the first dot (the length when there is none).
pub open spec fn first_dot(s: Seq<char>) -> int
    decreases s.len(),
{
    if s.len() == 0 {
        0
    } else if s.first() == '.' {
        0
    } else {
        1 + first_dot(s.drop_first())
    }
}

proof fn lemma_first_dot_bounds(s: Seq<char>)
    ensures
        0 <= first_dot(s) <= s.len(),
    decreases s.len(),
{
    if s.len() == 0 || s.first() == '.' {
    } else {
        lemma_first_dot_bounds(s.drop_first());
    }
}

/// If nothing below `d` is a dot and `d` is a dot or the end, `d` is the
/// first dot position.
proof fn lemma_first_dot_at(s: Seq<char>, d: int)
    requires
        0 <= d <= s.len(),
        forall|j: int| 0 <= j < d ==> (#[trigger] s[j]) != '.',
        d < s.len() ==> s[d] == '.',
    ensures
        first_dot(s) == d,
    decreases s.len(),
{
    if d == 0 {
        if s.len() > 0 {
            assert(s.first() == s[0]);
        }
    } else {
        assert(s.first() == s[0]);
        lemma_first_dot_at(s.drop_first(), d - 1);
    }
}

#[via_fn]
proof fn valid_dotted_label_decreases(s: Seq<char>) {
    lemma_first_dot_bounds(s);
}

/// A valid dotted host name: every dot-separated part is a valid label.
/// An empty part — a leading, trailing or doubled dot, or an empty string —
/// makes the whole name invalid.
pub open spec fn valid_dotted_label(s: Seq<char>) -> bool
    decreases s.len(),
    via valid_dotted_label_decreases
{
    if first_dot(s) == s.len() {
        valid_label_part(s)
    } else {
        valid_label_part(s.subrange(0, first_dot(s))) && valid_dotted_label(
            s.subrange(first_dot(s) + 1, s.len() as int),
        )
    }
}

/// What host-label validation accepts: a single label, or, when dots are
/// allowed, a dot-separated sequence of labels.
pub open spec fn valid_host_label_spec(s: Seq<char>, allow_dots: bool) -> bool {
    if allow_dots {
        valid_dotted_label(s)
    } else {
        valid_label_part(s)
    }
}

/// Checks one dot-free label, reporting a diagnostic when it is empty, too
/// long, or starts with a hyphen.
fn check_part(part: &str, e: &mut DiagnosticCollector) -> (r: bool)
    ensures
        r == valid_label_part(part@),
        old(e)@.is_prefix_of(final(e)@),
{
    let bytes: &[u8] = part.as_bytes();
    let byte_len: usize = bytes.len();
    assert(byte_len == vstd::utf8::encode_utf8(part@).len());
    if part.is_empty() || byte_len > 63 {
        e.report_error("host was too short or too long");
        return false;
    }
    let n: usize = part.unicode_len();
    let mut i: usize = 0;
    while i < n
        invariant
            i <= n,
            n == part@.len(),
            n != 0,
            vstd::utf8::encode_utf8(part@).len() <= 63,
            forall|j: int|
                0 <= j < i ==> is_unicode_alphanumeric(#[trigger] part@[j]) || part@[j] == '-',
            i > 0 ==> part@[0] != '-',
            e@ == old(e)@,
        decreases n - i,
    {
        let ch: char = part.get_char(i);
        if ch == '-' {
            if i == 0 {
                e.report_error("cannot start with `-`");
                return false;
            }
        } else if !char_is_alphanumeric(ch) {
            return false;
        }
        i = i + 1;
    }
    true
}

/// Position of the first dot at or after `start`, or the length when no
/// dot follows.
fn find_dot(label: &str, start: usize, n: usize) -> (end: usize)
    requires
        n == label@.len(),
        start <= n,
    ensures
        start <= end <= n,
        forall|j: int| start <= j < end ==> (#[trigger] label@[j]) != '.',
        end < n ==> label@[end as int] == '.',
{
    let mut end: usize = start;
    while end < n
        invariant
            start <= end <= n,
            n == label@.len(),
            forall|j: int| start <= j < end ==> (#[trigger] label@[j]) != '.',
        decreases n - end,
    {
        if label.get_char(end) == '.' {
            return end;
        }
        end = end + 1;
    }
    end
}

/// Validates a host label as the endpoint rules use it: with `allow_dots`,
/// each dot-separated part must be a valid label on its own.  Rejections
/// for emptiness, over-length and a leading hyphen leave a diagnostic in
/// the collector; the collector only ever grows.
pub fn is_valid_host_label(label: &str, allow_dots: bool, e: &mut DiagnosticCollector) -> (r: bool)
    ensures
        r == valid_host_label_spec(label@, allow_dots),
        old(e)@.is_prefix_of(final(e)@),
{
    if !allow_dots {
        return check_part(label, e);
    }
    let n: usize = label.unicode_len();
    let mut start: usize = 0;
    proof {
        assert(label@.skip(0) =~= label@);
    }
    loop
        invariant
            allow_dots,
            start <= n,
            n == label@.len(),
            valid_dotted_label(label@) == valid_dotted_label(label@.skip(start as int)),
            old(e)@.is_prefix_of(e@),
        decreases n + 1 - start,
    {
        let ghost suffix: Seq<char> = label@.skip(start as int);
        let end: usize = find_dot(label, start, n);
        proof {
            assert forall|j: int| 0 <= j < end - start implies (#[trigger] suffix[j]) != '.' by {
                assert(suffix[j] == label@[start + j]);
            }
            assert(end < n ==> suffix[end - start] == label@[end as int]);
            lemma_first_dot_at(suffix, end - start);
        }
        let part: &str = label.substring_char(start, end);
        proof {
            assert(part@ =~= suffix.subrange(0, end - start));
            if end < n {
                assert(valid_dotted_label(suffix) == (valid_label_part(part@)
                    && valid_dotted_label(suffix.subrange(end - start + 1, suffix.len() as int))));
            }
        }
        if end == n {
            proof {
                assert(suffix =~= suffix.subrange(0, end - start));
                assert(valid_dotted_label(suffix) == valid_label_part(suffix));
            }
            return check_part(part, e);
        }
        if !check_part(part, e) {
            assert(!valid_dotted_label(suffix));
            return false;
        }
        proof {
            assert(label@.skip(end + 1) =~= suffix.subrange(end - start + 1, suffix.len() as int));
        }
        start = end + 1;
    }
}

} // verus!
