//! Request complexity classification for smart routing.
//!
//! The tier of a request is decided by the latest user message: its length
//! in characters, how many error keywords it mentions and how many source-file
//! paths it names.

use vstd::prelude::*;
use crate::config::{ModelTier, RoutingConfig};
use crate::json::same_text;
use crate::text::{
    CharClass, chars_of, ends_with, has_substring, is_suffix, is_whitespace, is_ws, lowercase,
    slice_chars, str_contains, strip, strip_bounds, to_lowercase,
};
use crate::types::{Message, content_of, strs};

verus! {

broadcast use vstd::string::group_string_axioms;

/// Content of the last message whose role is `user`; empty when there is none.
pub open spec fn last_user_content(msgs: Seq<Message>) -> Seq<char>
    decreases msgs.len(),
{
    if msgs.len() == 0 {
        Seq::empty()
    } else if msgs.last().role@ == "user"@ {
        content_of(msgs.last())
    } else {
        last_user_content(msgs.drop_last())
    }
}

/// Number of keywords (counted with repetition) whose lower-cased form
/// occurs in `lower`.
pub open spec fn keyword_hits(lower: Seq<char>, kws: Seq<Seq<char>>) -> nat {
    kws.filter(hit_in(lower)).len()
}

/// The keywords whose lower-cased form occurs in `lower`.
pub open spec fn hit_in(lower: Seq<char>) -> spec_fn(Seq<char>) -> bool {
    |k: Seq<char>| has_substring(lower, lowercase(k))
}

/// Whitespace-separated words of `s` (std's `split_whitespace`), given that
/// `cur` holds the characters of the current word read so far.
pub open spec fn words_from(s: Seq<char>, cur: Seq<char>) -> Seq<Seq<char>>
    decreases s.len(),
{
    if s.len() == 0 {
        if cur.len() > 0 {
            seq![cur]
        } else {
            Seq::empty()
        }
    } else if is_ws(s[0]) {
        (if cur.len() > 0 {
            seq![cur]
        } else {
            Seq::empty()
        }) + words_from(s.drop_first(), Seq::empty())
    } else {
        words_from(s.drop_first(), cur.push(s[0]))
    }
}

/// Whitespace-separated words of `s`.
pub open spec fn words(s: Seq<char>) -> Seq<Seq<char>> {
    words_from(s, Seq::empty())
}

/// File extensions that mark a word as a source-file path.
pub open spec fn source_extensions() -> Seq<Seq<char>> {
    seq![
        ".rs"@, ".ts"@, ".tsx"@, ".js"@, ".jsx"@, ".py"@, ".go"@, ".java"@,
        ".c"@, ".cpp"@, ".h"@, ".hpp"@, ".rb"@, ".swift"@, ".kt"@, ".toml"@,
        ".json"@, ".yaml"@, ".yml"@, ".md"@, ".css"@, ".html"@, ".vue"@,
        ".svelte"@,
    ]
}

/// A word names a file: stripped of surrounding backticks, quotes and
/// commas, it contains `/` and ends with a source extension.
pub open spec fn is_file_mention(w: Seq<char>) -> bool {
    let t = strip(w, CharClass::QuoteOrComma);
    &&& t.contains('/')
    &&& exists|k: int| 0 <= k < source_extensions().len() && is_suffix(#[trigger] source_extensions()[k], t)
}

/// Number of words of `s` that name a file.
pub open spec fn file_mentions(s: Seq<char>) -> nat {
    words(s).filter(names_file()).len()
}

/// The predicate `is_file_mention`, as a value.
pub open spec fn names_file() -> spec_fn(Seq<char>) -> bool {
    |w: Seq<char>| is_file_mention(w)
}

/// Tier for a message of `len` characters with `errors` keyword hits and `files`
/// file mentions.
pub open spec fn tier_for(len: int, errors: int, files: int, routing: RoutingConfig) -> ModelTier {
    if len >= routing.complex_threshold || errors >= 2 || files >= routing.file_mention_threshold {
        ModelTier::Complex
    } else if len >= routing.medium_threshold || errors >= 1 || files >= 1 {
        ModelTier::Medium
    } else {
        ModelTier::Simple
    }
}

/// Complexity of a request: Simple when there is no (non-empty) user
/// message; otherwise the tier of the last user message.
pub open spec fn complexity(msgs: Seq<Message>, kws: Seq<Seq<char>>, routing: RoutingConfig) -> ModelTier {
    let t = last_user_content(msgs);
    if t.len() == 0 {
        ModelTier::Simple
    } else {
        tier_for(
            t.len() as int,
            keyword_hits(lowercase(t), kws) as int,
            file_mentions(t) as int,
            routing,
        )
    }
}

/// The source extensions, in order.
fn source_extension_list() -> (r: Vec<&'static str>)
    ensures
        r@.map_values(|e: &str| e@) == source_extensions(),
{
    let r = vec![
        ".rs", ".ts", ".tsx", ".js", ".jsx", ".py", ".go", ".java",
        ".c", ".cpp", ".h", ".hpp", ".rb", ".swift", ".kt", ".toml",
        ".json", ".yaml", ".yml", ".md", ".css", ".html", ".vue",
        ".svelte",
    ];
    assert(r@.map_values(|e: &str| e@) =~= source_extensions());
    r
}

/// Does the word name a source file?
fn is_file_mention_word(w: &[char]) -> (r: bool)
    ensures
        r == is_file_mention(w@),
{
    let (a, b) = strip_bounds(w, CharClass::QuoteOrComma);
    let t = slice_chars(w, a, b);
    let mut slash = false;
    let mut i: usize = 0;
    while i < t.len()
        invariant
            i <= t@.len(),
            slash == exists|j: int| 0 <= j < i && t@[j] == '/',
        decreases t@.len() - i,
    {
        if t[i] == '/' {
            slash = true;
        }
        i = i + 1;
    }
    if !slash {
        return false;
    }
    let exts = source_extension_list();
    let mut k: usize = 0;
    while k < exts.len()
        invariant
            k <= exts@.len(),
            exts@.map_values(|e: &str| e@) == source_extensions(),
            t@ == strip(w@, CharClass::QuoteOrComma),
            t@.contains('/'),
            forall|j: int| 0 <= j < k ==> !is_suffix(#[trigger] source_extensions()[j], t@),
        decreases exts@.len() - k,
    {
        let e = chars_of(exts[k]);
        assert(source_extensions()[k as int] == exts@[k as int]@);
        if ends_with(t.as_slice(), e.as_slice()) {
            return true;
        }
        k = k + 1;
    }
    false
}

/// Filtering a sequence extended by one element.
proof fn lemma_filter_push<A>(s: Seq<A>, x: A, p: spec_fn(A) -> bool)
    ensures
        s.push(x).filter(p) == (if p(x) {
            s.filter(p).push(x)
        } else {
            s.filter(p)
        }),
{
    reveal(Seq::filter);
    assert(s.push(x).drop_last() =~= s);
}

/// Counts likely file path mentions in text: whitespace-separated words
/// that, stripped of backticks, quotes and commas, contain `/` and end with
/// a source extension (`src/foo.rs`, `./bar.ts`, `path/to/file.py`).
pub fn count_file_mentions(text: &str) -> (r: usize)
    ensures
        r == file_mentions(text@),
{
    let c = chars_of(text);
    let mut cur: Vec<char> = Vec::new();
    let mut count: usize = 0;
    let ghost mut done: Seq<Seq<char>> = Seq::empty();
    let ghost p = names_file();
    let mut i: usize = 0;
    assert(c@.skip(0) =~= c@);
    while i < c.len()
        invariant
            i <= c@.len(),
            c@ == text@,
            words(c@) == done + words_from(c@.skip(i as int), cur@),
            count == done.filter(p).len(),
            p == names_file(),
            done.len() + (if cur@.len() > 0 { 1int } else { 0int }) <= i,
        decreases c@.len() - i,
    {
        let ghost s = c@.skip(i as int);
        assert(s.drop_first() =~= c@.skip(i + 1));
        assert(s[0] == c@[i as int]);
        if is_whitespace(c[i]) {
            if cur.len() > 0 {
                let hit = is_file_mention_word(cur.as_slice());
                proof {
                    lemma_filter_push(done, cur@, p);
                    done.filter(p).lemma_filter_len(p);
                    assert(done + words_from(s, cur@) =~= done.push(cur@) + words_from(
                        c@.skip(i + 1),
                        Seq::empty(),
                    ));
                    done = done.push(cur@);
                }
                if hit {
                    count = count + 1;
                }
                cur = Vec::new();
            } else {
                assert(cur@ =~= Seq::<char>::empty());
                assert(words_from(s, cur@) =~= words_from(c@.skip(i + 1), cur@));
            }
        } else {
            let ghost old_cur = cur@;
            cur.push(c[i]);
            assert(words_from(s, old_cur) == words_from(c@.skip(i + 1), cur@));
        }
        i = i + 1;
    }
    assert(c@.skip(i as int) =~= Seq::<char>::empty());
    if cur.len() > 0 {
        let hit = is_file_mention_word(cur.as_slice());
        proof {
            lemma_filter_push(done, cur@, p);
            done.filter(p).lemma_filter_len(p);
            assert(done + words_from(c@.skip(i as int), cur@) =~= done.push(cur@));
            done = done.push(cur@);
        }
        if hit {
            count = count + 1;
        }
    } else {
        assert(done + words_from(c@.skip(i as int), cur@) =~= done);
    }
    count
}

/// Classifies request complexity from the latest user message: Complex when
/// it is at least `complex_threshold` characters long, mentions two or more error
/// keywords or names at least `file_mention_threshold` files; Medium when it
/// is at least `medium_threshold` characters long, mentions an error keyword or
/// names a file; Simple otherwise, and when there is no user message.
pub fn classify_complexity(
    messages: &[Message],
    error_keywords: &[String],
    routing: &RoutingConfig,
) -> (r: ModelTier)
    ensures
        r == complexity(messages@, strs(error_keywords@), *routing),
{
    let mut i: usize = messages.len();
    let mut found: Option<usize> = None;
    assert(messages@.take(messages@.len() as int) =~= messages@);
    while i > 0
        invariant_except_break
            found is None,
        invariant
            i <= messages@.len(),
            last_user_content(messages@) == last_user_content(messages@.take(i as int)),
        ensures
            match found {
                Some(j) => j < messages@.len() && last_user_content(messages@) == content_of(
                    messages@[j as int],
                ),
                None => last_user_content(messages@) == Seq::<char>::empty(),
            },
        decreases i,
    {
        let ghost t = messages@.take(i as int);
        assert(t.drop_last() =~= messages@.take(i - 1));
        assert(t.last() == messages@[i - 1]);
        if same_text(messages[i - 1].role.as_str(), "user") {
            found = Some(i - 1);
            break;
        }
        i = i - 1;
    }
    let text: &str = match found {
        Some(j) => messages[j].content_str(),
        None => {
            proof {
                reveal_strlit("");
            }
            ""
        },
    };
    if text.is_empty() {
        return ModelTier::Simple;
    }
    let lower = to_lowercase(text);
    let len = crate::text::chars_of(text).len();
    let ghost kws = strs(error_keywords@);
    let ghost p = hit_in(lower@);
    let mut errors: usize = 0;
    let mut k: usize = 0;
    while k < error_keywords.len()
        invariant
            k <= error_keywords@.len(),
            kws == strs(error_keywords@),
            p == hit_in(lower@),
            errors == kws.take(k as int).filter(p).len(),
            errors <= k,
        decreases error_keywords@.len() - k,
    {
        let kw = to_lowercase(error_keywords[k].as_str());
        let hit = str_contains(lower.as_str(), kw.as_str());
        proof {
            assert(kws.take(k + 1) =~= kws.take(k as int).push(error_keywords@[k as int]@));
            lemma_filter_push(kws.take(k as int), error_keywords@[k as int]@, p);
        }
        if hit {
            errors = errors + 1;
        }
        k = k + 1;
    }
    assert(kws.take(k as int) =~= kws);
    let files = count_file_mentions(text);
    if len >= routing.complex_threshold || errors >= 2 || files >= routing.file_mention_threshold {
        ModelTier::Complex
    } else if len >= routing.medium_threshold || errors >= 1 || files >= 1 {
        ModelTier::Medium
    } else {
        ModelTier::Simple
    }
}

/// Only the last message whose role is exactly `user` is classified: a
/// message of any other role (tool, assistant, system) added after the
/// conversation leaves the tier as it was, a user message added after it
/// makes the tier that of this message alone, and a conversation without a
/// user message is Simple.
pub proof fn law_last_user_message_decides(
    msgs: Seq<Message>,
    m: Message,
    kws: Seq<Seq<char>>,
    routing: RoutingConfig,
)
    ensures
        m.role@ != "user"@ ==> complexity(msgs.push(m), kws, routing) == complexity(msgs, kws, routing),
        m.role@ == "user"@ ==> complexity(msgs.push(m), kws, routing) == complexity(seq![m], kws, routing),
        (forall|j: int| 0 <= j < msgs.len() ==> (#[trigger] msgs[j]).role@ != "user"@) ==> complexity(
            msgs,
            kws,
            routing,
        ) == ModelTier::Simple,
{
    assert(msgs.push(m).drop_last() =~= msgs);
    assert(seq![m].drop_last() =~= Seq::<Message>::empty());
    lemma_no_user_no_content(msgs);
}

proof fn lemma_no_user_no_content(msgs: Seq<Message>)
    ensures
        (forall|j: int| 0 <= j < msgs.len() ==> (#[trigger] msgs[j]).role@ != "user"@) ==> last_user_content(msgs)
            == Seq::<char>::empty(),
    decreases msgs.len(),
{
    if msgs.len() > 0 {
        lemma_no_user_no_content(msgs.drop_last());
        if forall|j: int| 0 <= j < msgs.len() ==> (#[trigger] msgs[j]).role@ != "user"@ {
            assert(msgs.last() == msgs[msgs.len() - 1]);
            assert forall|j: int| 0 <= j < msgs.drop_last().len() implies (#[trigger] msgs.drop_last()[j]).role@
                != "user"@ by {
                assert(msgs.drop_last()[j] == msgs[j]);
            }
        }
    }
}

} // verus!
