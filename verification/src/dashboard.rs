//! What the dashboard shows of sessions and request metrics: a session's
//! display name, its age as text, its estimated token count, and the
//! records of the metrics log.

use vstd::prelude::*;
use vstd::utf8::{encode_utf8, encode_scalar};
use crate::chat::lines_from;
use crate::numfmt::{decimal, u64_decimal};
use crate::session::Session;
use crate::sniffer::Message;
use crate::text::{chars_of, push_all, push_str, slice_chars, string_from_chars, trim, trim_chars};

verus! {

broadcast use vstd::string::group_string_axioms;

/// Number of UTF-8 bytes of the first `j` characters of `s`.
pub open spec fn prefix_bytes(s: Seq<char>, j: int) -> int {
    encode_utf8(s.take(j)).len() as int
}

/// Number of UTF-8 bytes of a character.
pub open spec fn char_width(c: char) -> int {
    let u = c as u32;
    if u < 0x80 {
        1
    } else if u < 0x800 {
        2
    } else if u < 0x10000 {
        3
    } else {
        4
    }
}

proof fn lemma_char_width(c: char)
    ensures
        encode_scalar(c as u32).len() == char_width(c),
{
}

proof fn lemma_prefix_bytes_step(s: Seq<char>, j: int)
    requires
        0 <= j < s.len(),
    ensures
        prefix_bytes(s, j + 1) == prefix_bytes(s, j) + char_width(s[j]),
    decreases j,
{
    lemma_char_width(s[0]);
    assert(s.take(j + 1).drop_first() =~= s.drop_first().take(j));
    assert(s.take(j + 1)[0] == s[0]);
    if j > 0 {
        assert(s.take(j).drop_first() =~= s.drop_first().take(j - 1));
        assert(s.take(j)[0] == s[0]);
        lemma_prefix_bytes_step(s.drop_first(), j - 1);
        assert(s.drop_first()[j - 1] == s[j]);
    } else {
        assert(s.take(0) =~= Seq::<char>::empty());
        assert(s.drop_first().take(0) =~= Seq::<char>::empty());
    }
}

/// Number of UTF-8 bytes of a character.
fn width_of(c: char) -> (r: usize)
    ensures
        r == char_width(c),
{
    let u = c as u32;
    if u < 0x80 {
        1
    } else if u < 0x800 {
        2
    } else if u < 0x10000 {
        3
    } else {
        4
    }
}

/// The number of characters kept of a long name: the most characters
/// (fewer than all) that start within the first 30 bytes.
pub open spec fn kept_chars(s: Seq<char>, j: int) -> int
    decreases j,
{
    if j <= 0 {
        0
    } else if prefix_bytes(s, j) <= 30 {
        j
    } else {
        kept_chars(s, j - 1)
    }
}

/// The first `j` characters of `id` whose UTF-8 encoding is `n` bytes long.
pub open spec fn cut_at_bytes(id: Seq<char>, n: int, j: int) -> bool {
    0 <= j <= id.len() && prefix_bytes(id, j) == n
}

/// Bytes of an identifier shown for a session without messages: four, or
/// fewer when it is shorter.
pub open spec fn id_head_bytes(id: Seq<char>) -> int {
    if encode_utf8(id).len() < 4 { encode_utf8(id).len() as int } else { 4 }
}

/// The display name of a session: its first message's content, cut to the
/// characters that start within 30 bytes and followed by `...` when it is
/// longer than 30 bytes; `#` and the first four bytes of its identifier
/// when it has no message.
pub open spec fn display_name_is(name: Seq<char>, s: Session) -> bool {
    if s.messages@.len() > 0 {
        let c = s.messages@[0].content@;
        if encode_utf8(c).len() > 30 {
            name == c.take(kept_chars(c, c.len() - 1)) + "..."@
        } else {
            name == c
        }
    } else {
        exists|j: int| #[trigger] cut_at_bytes(s.id@, id_head_bytes(s.id@), j) && name == seq!['#']
            + s.id@.take(j)
    }
}

impl Session {
    /// The name the dashboard shows for the session.
    pub fn display_name(&self) -> (r: String)
        requires
            self.messages@.len() == 0 ==> exists|j: int| #[trigger]
                cut_at_bytes(self.id@, id_head_bytes(self.id@), j),
        ensures
            display_name_is(r@, *self),
    {
        if self.messages.len() > 0 {
            let content = self.messages[0].content.as_str();
            let c = chars_of(content);
            if content.as_bytes().len() > 30 {
                let mut offset: usize = 0;
                let mut j: usize = 0;
                assert(c@.take(0) =~= Seq::<char>::empty());
                assert(c@.len() > 0) by {
                    if c@.len() == 0 {
                        assert(c@ =~= Seq::<char>::empty());
                    }
                }
                loop
                    invariant
                        j + 1 <= c@.len(),
                        c@.len() == c.len(),
                        offset == prefix_bytes(c@, j as int),
                        offset <= 30,
                    ensures
                        j + 1 <= c@.len(),
                        prefix_bytes(c@, j as int) <= 30,
                        j + 1 < c@.len() ==> prefix_bytes(c@, j + 1) > 30,
                    decreases c@.len() - j,
                {
                    if j >= c.len() - 1 {
                        break;
                    }
                    proof {
                        lemma_prefix_bytes_step(c@, j as int);
                    }
                    let next = offset + width_of(c[j]);
                    if next > 30 {
                        break;
                    }
                    offset = next;
                    j = j + 1;
                }
                let k = j;
                assert(k == kept_chars(c@, c@.len() - 1)) by {
                    lemma_kept_chars_stable(c@, j as int, c@.len() - 1);
                }
                let mut v = slice_chars(c.as_slice(), 0, k);
                push_str(&mut v, "...");
                proof {
                    reveal_strlit("...");
                }
                string_from_chars(v.as_slice())
            } else {
                crate::text::owned(content)
            }
        } else {
            let id = chars_of(self.id.as_str());
            let total = self.id.as_str().as_bytes().len();
            let n: usize = if total < 4 { total } else { 4 };
            let ghost jj = choose|j: int| cut_at_bytes(self.id@, n as int, j);
            let mut j: usize = 0;
            let mut offset: usize = 0;
            assert(id@.take(0) =~= Seq::<char>::empty());
            while offset < n && j < id.len()
                invariant
                    j <= id@.len(),
                    id@ == self.id@,
                    offset == prefix_bytes(id@, j as int),
                    cut_at_bytes(self.id@, n as int, jj),
                    j <= jj,
                    n <= 4,
                decreases id@.len() - j,
            {
                proof {
                    lemma_prefix_bytes_step(id@, j as int);
                    if j == jj {
                        assert(false);
                    }
                    lemma_prefix_bytes_mono(id@, j + 1, jj);
                }
                offset = offset + width_of(id[j]);
                j = j + 1;
            }
            proof {
                if j < jj {
                    lemma_prefix_bytes_step(id@, j as int);
                    lemma_prefix_bytes_mono(id@, j + 1, jj);
                    assert(false);
                }
            }
            let mut v: Vec<char> = vec!['#'];
            let head = slice_chars(id.as_slice(), 0, j);
            push_all(&mut v, head.as_slice());
            assert(v@ =~= seq!['#'] + self.id@.take(j as int));
            string_from_chars(v.as_slice())
        }
    }
}

proof fn lemma_prefix_bytes_mono(s: Seq<char>, a: int, b: int)
    requires
        0 <= a <= b <= s.len(),
    ensures
        prefix_bytes(s, a) <= prefix_bytes(s, b),
        a < b ==> prefix_bytes(s, a) < prefix_bytes(s, b),
    decreases b - a,
{
    if a < b {
        lemma_prefix_bytes_step(s, b - 1);
        lemma_prefix_bytes_mono(s, a, b - 1);
    }
}

proof fn lemma_kept_chars_stable(s: Seq<char>, j: int, m: int)
    requires
        0 <= j <= m < s.len(),
        prefix_bytes(s, j) <= 30,
        j < m ==> prefix_bytes(s, j + 1) > 30,
    ensures
        kept_chars(s, m) == j,
    decreases m - j,
{
    if j < m {
        lemma_prefix_bytes_mono(s, j + 1, m);
        lemma_kept_chars_stable(s, j, m - 1);
    } else {
        assert(kept_chars(s, j) == j);
    }
}

/// A session's age as the dashboard shows it: `Ns` under a minute, else `Nm Ns`.
pub open spec fn duration_text(secs: u64) -> Seq<char> {
    if secs < 60 {
        decimal(secs as nat) + "s"@
    } else {
        decimal((secs / 60) as nat) + "m "@ + decimal((secs % 60) as nat) + "s"@
    }
}

/// A session's age as text.
pub fn format_duration(secs: u64) -> (r: String)
    ensures
        r@ == duration_text(secs),
{
    let mut v: Vec<char> = Vec::new();
    if secs < 60 {
        let d = u64_decimal(secs);
        push_all(&mut v, d.as_slice());
        push_str(&mut v, "s");
    } else {
        let m = u64_decimal(secs / 60);
        push_all(&mut v, m.as_slice());
        push_str(&mut v, "m ");
        let s = u64_decimal(secs % 60);
        push_all(&mut v, s.as_slice());
        push_str(&mut v, "s");
    }
    string_from_chars(v.as_slice())
}

/// Tokens estimated for messages: a quarter of each content's bytes, rounded down.
pub open spec fn token_estimate(msgs: Seq<Message>) -> int
    decreases msgs.len(),
{
    if msgs.len() == 0 {
        0
    } else {
        token_estimate(msgs.drop_last()) + encode_utf8(msgs.last().content@).len() / 4
    }
}

impl Session {
    /// Tokens estimated for the session's messages.
    pub fn token_estimate(&self) -> (r: usize)
        requires
            token_estimate(self.messages@) <= usize::MAX,
        ensures
            r == token_estimate(self.messages@),
    {
        let mut sum: usize = 0;
        let mut i: usize = 0;
        while i < self.messages.len()
            invariant
                i <= self.messages@.len(),
                sum == token_estimate(self.messages@.take(i as int)),
                token_estimate(self.messages@) <= usize::MAX,
            decreases self.messages@.len() - i,
        {
            proof {
                assert(self.messages@.take(i + 1).drop_last() =~= self.messages@.take(i as int));
                lemma_token_estimate_prefix(self.messages@, i + 1);
            }
            sum = sum + self.messages[i].content.as_str().as_bytes().len() / 4;
            i = i + 1;
        }
        assert(self.messages@.take(i as int) =~= self.messages@);
        sum
    }
}

proof fn lemma_token_estimate_prefix(s: Seq<Message>, k: int)
    requires
        0 <= k <= s.len(),
    ensures
        token_estimate(s.take(k)) <= token_estimate(s),
    decreases s.len(),
{
    if k < s.len() {
        assert(s.drop_last().take(k) =~= s.take(k));
        lemma_token_estimate_prefix(s.drop_last(), k);
    } else {
        assert(s.take(k) =~= s);
    }
}

/// The records of a metrics log: its trimmed non-empty lines that parse as
/// JSON, in order.
pub open spec fn records(lines: Seq<Seq<char>>) -> Seq<Seq<char>>
    decreases lines.len(),
{
    if lines.len() == 0 {
        Seq::empty()
    } else {
        let t = trim(lines.last());
        records(lines.drop_last()) + if t.len() > 0 && crate::json::parsed_json(t) is Some {
            seq![t]
        } else {
            Seq::empty()
        }
    }
}

/// The records of a metrics log (one JSON document per line).
pub fn metrics_records(content: &str) -> (r: Vec<String>)
    ensures
        crate::types::strs(r@) == records(lines_from(content@, Seq::empty())),
{
    let c = chars_of(content);
    let mut out: Vec<String> = Vec::new();
    let mut cur: Vec<char> = Vec::new();
    let mut i: usize = 0;
    let ghost mut done: Seq<Seq<char>> = Seq::empty();
    assert(c@.skip(0) =~= c@);
    loop
        invariant
            i <= c@.len(),
            c@ == content@,
            lines_from(c@, Seq::empty()) == done + lines_from(c@.skip(i as int), cur@),
            crate::types::strs(out@) == records(done),
        decreases c@.len() - i, (if i < c@.len() { 1int } else { 0int }),
    {
        if i < c.len() && c[i] != '\n' {
            let ghost s = c@.skip(i as int);
            assert(s.drop_first() =~= c@.skip(i + 1));
            let ghost old_cur = cur@;
            cur.push(c[i]);
            assert(lines_from(s, old_cur) == lines_from(c@.skip(i + 1), cur@));
            i = i + 1;
        } else {
            let ghost s = c@.skip(i as int);
            let t = trim_chars(cur.as_slice());
            let ghost before = crate::types::strs(out@);
            if t.len() > 0 {
                let text = string_from_chars(t.as_slice());
                if crate::json::parse_json(text.as_str()).is_some() {
                    out.push(text);
                    assert(crate::types::strs(out@) =~= before.push(t@));
                }
            }
            proof {
                assert(done.push(cur@).drop_last() =~= done);
                assert(records(done.push(cur@)) =~= crate::types::strs(out@));
            }
            if i == c.len() {
                proof {
                    assert(s.len() == 0);
                    assert(lines_from(c@, Seq::empty()) =~= done.push(cur@));
                }
                return out;
            }
            proof {
                assert(s.drop_first() =~= c@.skip(i + 1));
                assert(lines_from(s, cur@) == seq![cur@] + lines_from(c@.skip(i + 1), Seq::empty()));
                assert(done + lines_from(s, cur@) =~= done.push(cur@) + lines_from(
                    c@.skip(i + 1),
                    Seq::empty(),
                ));
                done = done.push(cur@);
            }
            cur = Vec::new();
            i = i + 1;
        }
    }
}

} // verus!
