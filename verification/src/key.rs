//! Canonical prompts and cache keys.

use vstd::prelude::*;
use vstd::utf8::*;

use crate::digest;
use crate::text;

verus! {

/// A canonicalized prompt that is safe to hash deterministically.
#[derive(Debug, PartialEq, Eq)]
pub struct CanonicalPrompt {
    text: String,
}

impl View for CanonicalPrompt {
    type V = Seq<char>;

    closed spec fn view(&self) -> Seq<char> {
        self.text@
    }
}

/// The view of a list of `(role, content)` messages.
pub open spec fn message_views(messages: Seq<(&str, &str)>) -> Seq<(Seq<char>, Seq<char>)> {
    Seq::new(messages.len(), |i: int| (messages[i].0@, messages[i].1@))
}

/// One message in canonical form: its role, the unit separator, its content
/// with white space collapsed.
pub open spec fn canonical_message(m: (Seq<char>, Seq<char>)) -> Seq<char> {
    m.0 + seq!['\u{1F}'] + text::collapsed(m.1)
}

/// The canonical form of a message list: its messages, joined by the record
/// separator.
pub open spec fn canonical_messages(messages: Seq<(Seq<char>, Seq<char>)>) -> Seq<char> {
    text::joined(
        Seq::new(messages.len(), |i: int| canonical_message(messages[i])),
        seq!['\u{1E}'],
    )
}

impl CanonicalPrompt {
    /// Canonicalize a `(role, content)` message list into a single string.
    /// Rules:
    /// - Trim leading/trailing whitespace per message.
    /// - Collapse internal whitespace runs to single space (idempotent).
    /// - Preserve case.
    /// - Concatenate as `role\u{1F}content` joined by `\u{1E}`.
    pub fn from_messages(messages: &[(&str, &str)]) -> (r: CanonicalPrompt)
        ensures
            r@ == canonical_messages(message_views(messages@)),
    {
        let mut out = String::new();
        let ghost views = message_views(messages@);
        let ghost parts = Seq::new(views.len(), |i: int| canonical_message(views[i]));
        let mut i: usize = 0;
        while i < messages.len()
            invariant
                i <= messages@.len(),
                views == message_views(messages@),
                parts == Seq::new(views.len(), |i: int| canonical_message(views[i])),
                out@ == text::joined(parts.take(i as int), seq!['\u{1E}']),
            decreases messages@.len() - i,
        {
            let ghost before = out@;
            if i > 0 {
                out.push('\u{1E}');
            }
            out.append(messages[i].0);
            out.push('\u{1F}');
            let content = text::collapse(messages[i].1);
            out.append(content.as_str());
            proof {
                let p = parts.take(i + 1);
                assert(p.drop_last() =~= parts.take(i as int));
                assert(p.last() == canonical_message(views[i as int]));
                if i > 0 {
                    assert(out@ =~= before + seq!['\u{1E}'] + p.last());
                } else {
                    assert(out@ =~= p[0]);
                }
            }
            i += 1;
        }
        assert(parts.take(i as int) =~= parts);
        CanonicalPrompt { text: out }
    }

    /// Single-string variant for providers whose request has no message list.
    pub fn from_text(text: &str) -> (r: CanonicalPrompt)
        ensures
            r@ == text::collapsed(text@),
    {
        CanonicalPrompt { text: text::collapse(text) }
    }

    /// The canonical text.
    pub fn as_str(&self) -> (r: &str)
        ensures
            r@ == self@,
    {
        self.text.as_str()
    }

    /// The SHA-256 digest of the canonical text, in hexadecimal.
    pub fn sha256_hex(&self) -> (r: String)
        ensures
            r@ == digest::sha256_text(encode_utf8(self@)),
            digest::is_hex_of(r@, 64),
    {
        digest::sha256_hex_of(self.text.as_str().as_bytes())
    }
}

/// Composite cache key: `namespace:model:sha256(prompt)`.
#[derive(Debug, PartialEq, Eq)]
pub struct CacheKey {
    pub namespace: String,
    pub model: String,
    pub prompt_sha: String,
}

/// The view of a [`CacheKey`].
#[verifier::ext_equal]
pub struct KeyView {
    pub namespace: Seq<char>,
    pub model: Seq<char>,
    pub prompt_sha: Seq<char>,
}

impl View for CacheKey {
    type V = KeyView;

    open spec fn view(&self) -> KeyView {
        KeyView {
            namespace: self.namespace@,
            model: self.model@,
            prompt_sha: self.prompt_sha@,
        }
    }
}

/// The key of a prompt under a namespace and a model.
pub open spec fn key_of(namespace: Seq<char>, model: Seq<char>, prompt: Seq<char>) -> KeyView {
    KeyView { namespace, model, prompt_sha: digest::sha256_text(encode_utf8(prompt)) }
}

/// The longest prefix of at most that many characters.
pub open spec fn short_prefix(s: Seq<char>, n: nat) -> Seq<char> {
    if s.len() <= n {
        s
    } else {
        s.take(n as int)
    }
}

impl KeyView {
    /// The key as one text.
    pub open spec fn redis_key(self) -> Seq<char> {
        self.namespace + seq![':'] + self.model + seq![':'] + self.prompt_sha
    }

    /// What support sees of the key.
    pub open spec fn prefix(self) -> Seq<char> {
        short_prefix(self.prompt_sha, 12)
    }
}

/// The first `n` characters of a text, or all of it where it has fewer.
pub fn take_chars(s: &str, n: usize) -> (r: String)
    ensures
        r@ == short_prefix(s@, n as nat),
{
    let chars = text::chars_of(s);
    if chars.len() <= n {
        assert(chars@.subrange(0, chars@.len() as int) =~= s@);
        text::text_of(&chars, 0, chars.len())
    } else {
        text::text_of(&chars, 0, n)
    }
}

impl CacheKey {
    /// The key of a prompt under a namespace and a model.
    pub fn new(namespace: &str, model: &str, prompt: &CanonicalPrompt) -> (r: CacheKey)
        ensures
            r@ == key_of(namespace@, model@, prompt@),
            digest::is_hex_of(r@.prompt_sha, 64),
    {
        CacheKey {
            namespace: text::owned(namespace),
            model: text::owned(model),
            prompt_sha: prompt.sha256_hex(),
        }
    }

    /// The key as one text, `namespace:model:sha`.
    pub fn as_redis_key(&self) -> (r: String)
        ensures
            r@ == self@.redis_key(),
    {
        let mut out = self.namespace.clone();
        out.push(':');
        out.append(self.model.as_str());
        out.push(':');
        out.append(self.prompt_sha.as_str());
        assert(out@ =~= self@.redis_key());
        out
    }

    /// Short prefix safe to expose in `X-Cache-Key` header for support correlation:
    /// twelve digits of the digest.
    pub fn correlation_prefix(&self) -> (r: String)
        ensures
            r@ == self@.prefix(),
            digest::is_hex_of(self@.prompt_sha, 64) ==> digest::is_hex_of(r@, 12),
    {
        take_chars(self.prompt_sha.as_str(), 12)
    }
}

impl Clone for CanonicalPrompt {
    fn clone(&self) -> (r: CanonicalPrompt)
        ensures
            r == *self,
    {
        CanonicalPrompt { text: self.text.clone() }
    }
}

impl Clone for CacheKey {
    fn clone(&self) -> (r: CacheKey)
        ensures
            r == *self,
    {
        CacheKey {
            namespace: self.namespace.clone(),
            model: self.model.clone(),
            prompt_sha: self.prompt_sha.clone(),
        }
    }
}

// ---------------------------------------------------------------------
// Laws
// ---------------------------------------------------------------------

/// The canonical form of a message list depends on the roles and on the words of
/// the contents alone: white space around and between the words is immaterial.
pub proof fn canonicalization_ignores_white_space(
    a: Seq<(Seq<char>, Seq<char>)>,
    b: Seq<(Seq<char>, Seq<char>)>,
)
    requires
        a.len() == b.len(),
        forall|i: int|
            #![trigger a[i]]
            0 <= i < a.len() ==> a[i].0 == b[i].0 && text::words(a[i].1) == text::words(b[i].1),
    ensures
        canonical_messages(a) == canonical_messages(b),
{
    let x = Seq::new(a.len(), |i: int| canonical_message(a[i]));
    let y = Seq::new(b.len(), |i: int| canonical_message(b[i]));
    assert forall|i: int| 0 <= i < a.len() implies x[i] == y[i] by {
        assert(a[i].0 == b[i].0);
    }
    assert(x =~= y);
}

/// So does the key: messages with the same words have the same one.
pub proof fn white_space_keeps_the_key(
    namespace: Seq<char>,
    model: Seq<char>,
    a: Seq<(Seq<char>, Seq<char>)>,
    b: Seq<(Seq<char>, Seq<char>)>,
)
    requires
        a.len() == b.len(),
        forall|i: int|
            #![trigger a[i]]
            0 <= i < a.len() ==> a[i].0 == b[i].0 && text::words(a[i].1) == text::words(b[i].1),
    ensures
        key_of(namespace, model, canonical_messages(a)) == key_of(
            namespace,
            model,
            canonical_messages(b),
        ),
{
    canonicalization_ignores_white_space(a, b);
}

/// Canonicalizing the contents once more changes nothing.
pub proof fn canonicalization_idempotent(messages: Seq<(Seq<char>, Seq<char>)>)
    ensures
        canonical_messages(
            Seq::new(
                messages.len(),
                |i: int| (messages[i].0, text::collapsed(messages[i].1)),
            ),
        ) == canonical_messages(messages),
{
    let once = Seq::new(
        messages.len(),
        |i: int| (messages[i].0, text::collapsed(messages[i].1)),
    );
    assert forall|i: int|
        #![trigger once[i]]
        0 <= i < once.len() implies once[i].0 == messages[i].0 && text::words(once[i].1)
        == text::words(messages[i].1) by {
        text::collapsed_keeps_words(messages[i].1);
    }
    canonicalization_ignores_white_space(once, messages);
}

/// Of a single message, the role and the content without its white space can be
/// read off the canonical form: case and every other character are kept.
pub proof fn canonicalization_keeps_characters(
    role: Seq<char>,
    a: Seq<char>,
    b: Seq<char>,
)
    requires
        canonical_messages(seq![(role, a)]) == canonical_messages(seq![(role, b)]),
    ensures
        text::solid(a) == text::solid(b),
        text::words(a) == text::words(b),
{
    let x = seq![(role, a)];
    let y = seq![(role, b)];
    let px = Seq::new(x.len(), |i: int| canonical_message(x[i]));
    let py = Seq::new(y.len(), |i: int| canonical_message(y[i]));
    assert(px[0] == canonical_message((role, a)));
    assert(py[0] == canonical_message((role, b)));
    let n = role.len() + 1;
    assert(px[0].skip(n as int) =~= text::collapsed(a));
    assert(py[0].skip(n as int) =~= text::collapsed(b));
    text::collapsed_keeps_words(a);
    text::collapsed_keeps_words(b);
    text::collapsed_keeps_solid(a);
    text::collapsed_keeps_solid(b);
}

/// The canonical form of a conversation holds every message, however many there
/// are: one more message makes it longer by the record separator, the role, the
/// unit separator and the collapsed content.
pub proof fn canonical_form_holds_every_message(
    messages: Seq<(Seq<char>, Seq<char>)>,
    role: Seq<char>,
    content: Seq<char>,
)
    ensures
        canonical_messages(seq![(role, content)]) == role + seq!['\u{1F}'] + text::collapsed(content),
        messages.len() > 0 ==> canonical_messages(messages.push((role, content)))
            == canonical_messages(messages) + seq!['\u{1E}'] + role + seq!['\u{1F}']
            + text::collapsed(content),
{
    let sep = seq!['\u{1E}'];
    let last = role + seq!['\u{1F}'] + text::collapsed(content);
    let one = seq![(role, content)];
    let parts = Seq::new(messages.len(), |i: int| canonical_message(messages[i]));
    let more = messages.push((role, content));
    assert(Seq::new(one.len(), |i: int| canonical_message(one[i])) =~= seq![last]);
    assert(Seq::new(more.len(), |i: int| canonical_message(more[i])) =~= parts.push(last));
    text::joined_grows_by_part(parts, last, sep);
    if messages.len() > 0 {
        assert(canonical_messages(more) =~= canonical_messages(messages) + sep + role
            + seq!['\u{1F}'] + text::collapsed(content));
    }
}

/// A text without the separators of the canonical form.
pub open spec fn separator_free(s: Seq<char>) -> bool {
    forall|i: int| 0 <= i < s.len() ==> s[i] != '\u{1E}' && #[trigger] s[i] != '\u{1F}'
}

/// What stands before and behind the last separator of a text is one thing.
proof fn lemma_split_at_last(
    p1: Seq<char>,
    q1: Seq<char>,
    p2: Seq<char>,
    q2: Seq<char>,
    c: char,
)
    requires
        p1 + seq![c] + q1 == p2 + seq![c] + q2,
        forall|i: int| 0 <= i < q1.len() ==> q1[i] != c,
        forall|i: int| 0 <= i < q2.len() ==> q2[i] != c,
    ensures
        p1 == p2,
        q1 == q2,
{
    let s = p1 + seq![c] + q1;
    let t = p2 + seq![c] + q2;
    let (n, m) = (p1.len() as int, p2.len() as int);
    assert(s[n] == c && t[m] == c);
    assert(s.len() == n + 1 + q1.len() && t.len() == m + 1 + q2.len());
    assert(s[m] == c && t[n] == c);
    if n < m {
        assert(s[m] == q1[m - n - 1]);
    }
    if m < n {
        assert(t[n] == q2[n - m - 1]);
    }
    assert(s.take(n) =~= p1);
    assert(t.take(n) =~= p2);
    assert(s.skip(n + 1) =~= q1);
    assert(t.skip(n + 1) =~= q2);
}

/// The canonical form of one message without separators has no record separator,
/// and its unit separator is the one behind its role.
proof fn lemma_last_message(role: Seq<char>, content: Seq<char>)
    requires
        separator_free(role),
        separator_free(content),
    ensures
        ({
            let q = role + seq!['\u{1F}'] + text::collapsed(content);
            &&& forall|i: int| 0 <= i < q.len() ==> q[i] != '\u{1E}'
            &&& forall|i: int|
                0 <= i < text::collapsed(content).len() ==> text::collapsed(content)[i] != '\u{1F}'
        }),
{
    text::collapsed_brings_only_spaces(content, '\u{1E}');
    text::collapsed_brings_only_spaces(content, '\u{1F}');
    let w = text::collapsed(content);
    let q = role + seq!['\u{1F}'] + w;
    assert forall|i: int| 0 <= i < q.len() implies q[i] != '\u{1E}' by {
        let n = role.len() as int;
        if i < n {
            assert(q[i] == role[i]);
        } else if i > n {
            assert(q[i] == w[i - n - 1]);
        }
    }
}

/// Different conversations do not meet in one canonical form: where no role and no
/// content holds a separator, lists with the same form have the same length, the
/// same roles and contents with the same words.
pub proof fn canonical_form_tells_conversations_apart(
    a: Seq<(Seq<char>, Seq<char>)>,
    b: Seq<(Seq<char>, Seq<char>)>,
)
    requires
        forall|i: int|
            #![trigger a[i]]
            0 <= i < a.len() ==> separator_free(a[i].0) && separator_free(a[i].1),
        forall|i: int|
            #![trigger b[i]]
            0 <= i < b.len() ==> separator_free(b[i].0) && separator_free(b[i].1),
        canonical_messages(a) == canonical_messages(b),
    ensures
        a.len() == b.len(),
        forall|i: int|
            #![trigger a[i]]
            0 <= i < a.len() ==> a[i].0 == b[i].0 && text::words(a[i].1) == text::words(b[i].1),
    decreases a.len(),
{
    if a.len() == 0 || b.len() == 0 {
        lemma_form_is_empty(a);
        lemma_form_is_empty(b);
    } else {
        let (x, y) = (a.drop_last(), b.drop_last());
        let (m, n) = (a.last(), b.last());
        assert(a[a.len() - 1] == m && b[b.len() - 1] == n);
        assert(x.push(m) =~= a && y.push(n) =~= b);
        canonical_form_holds_every_message(x, m.0, m.1);
        canonical_form_holds_every_message(y, n.0, n.1);
        lemma_last_message(m.0, m.1);
        lemma_last_message(n.0, n.1);
        let p = m.0 + seq!['\u{1F}'] + text::collapsed(m.1);
        let q = n.0 + seq!['\u{1F}'] + text::collapsed(n.1);
        let fa = canonical_messages(a);
        let fb = canonical_messages(b);
        if x.len() == 0 {
            assert(a =~= seq![m]);
            assert(fa == p);
        } else {
            assert(fa =~= canonical_messages(x) + seq!['\u{1E}'] + p);
            assert(fa[canonical_messages(x).len() as int] == '\u{1E}');
        }
        if y.len() == 0 {
            assert(b =~= seq![n]);
            assert(fb == q);
        } else {
            assert(fb =~= canonical_messages(y) + seq!['\u{1E}'] + q);
            assert(fb[canonical_messages(y).len() as int] == '\u{1E}');
        }
        assert(x.len() == 0 <==> y.len() == 0);
        if x.len() > 0 {
            lemma_split_at_last(canonical_messages(x), p, canonical_messages(y), q, '\u{1E}');
            assert forall|i: int|
                #![trigger x[i]]
                0 <= i < x.len() implies separator_free(x[i].0) && separator_free(x[i].1) by {
                assert(x[i] == a[i]);
            }
            assert forall|i: int|
                #![trigger y[i]]
                0 <= i < y.len() implies separator_free(y[i].0) && separator_free(y[i].1) by {
                assert(y[i] == b[i]);
            }
            canonical_form_tells_conversations_apart(x, y);
        }
        lemma_split_at_last(m.0, text::collapsed(m.1), n.0, text::collapsed(n.1), '\u{1F}');
        text::collapsed_tells_words_apart(m.1, n.1);
        assert forall|i: int|
            #![trigger a[i]]
            0 <= i < a.len() implies a[i].0 == b[i].0 && text::words(a[i].1) == text::words(
            b[i].1,
        ) by {
            if i < x.len() {
                assert(x[i] == a[i] && y[i] == b[i]);
            }
        }
    }
}

/// Only the empty list has an empty canonical form.
proof fn lemma_form_is_empty(a: Seq<(Seq<char>, Seq<char>)>)
    ensures
        canonical_messages(a).len() == 0 <==> a.len() == 0,
{
    if a.len() > 0 {
        let (x, m) = (a.drop_last(), a.last());
        assert(x.push(m) =~= a);
        canonical_form_holds_every_message(x, m.0, m.1);
        if x.len() == 0 {
            assert(a =~= seq![m]);
        }
    }
}

/// A key names its namespace and its model as they are, and the prompt by the
/// hexadecimal SHA-256 digest of its UTF-8 bytes, whatever the other two are.
pub proof fn key_names_its_parts(namespace: Seq<char>, model: Seq<char>, prompt: Seq<char>)
    ensures
        key_of(namespace, model, prompt).namespace == namespace,
        key_of(namespace, model, prompt).model == model,
        key_of(namespace, model, prompt).prompt_sha == digest::hex_text(
            digest::sha256(encode_utf8(prompt)),
        ),
{
}

/// The text of a key is the namespace, the model and the digest, a colon between
/// each two.
pub proof fn redis_key_holds_its_parts(key: KeyView)
    ensures
        ({
            let t = key.redis_key();
            let n = key.namespace.len() as int;
            let m = n + 1 + key.model.len();
            &&& t.len() == m + 1 + key.prompt_sha.len()
            &&& t.take(n) == key.namespace
            &&& t[n] == ':'
            &&& t.subrange(n + 1, m) == key.model
            &&& t[m] == ':'
            &&& t.skip(m + 1) == key.prompt_sha
        }),
{
    let t = key.redis_key();
    let n = key.namespace.len() as int;
    let m = n + 1 + key.model.len();
    assert(t.take(n) =~= key.namespace);
    assert(t.subrange(n + 1, m) =~= key.model);
    assert(t.skip(m + 1) =~= key.prompt_sha);
}

/// What support sees of a key is the start of its digest: twelve characters, or
/// all that there are.
pub proof fn key_prefix_starts_the_digest(key: KeyView)
    ensures
        key.prefix().len() <= 12,
        key.prefix().len() <= key.prompt_sha.len(),
        key.prefix().len() < 12 ==> key.prefix() == key.prompt_sha,
        key.prompt_sha.take(key.prefix().len() as int) == key.prefix(),
{
    assert(key.prompt_sha.take(key.prompt_sha.len() as int) =~= key.prompt_sha);
}

/// Two keys that differ in the model alone have different texts.
pub proof fn redis_key_changes_with_model(a: KeyView, b: KeyView)
    requires
        a.namespace == b.namespace,
        a.prompt_sha == b.prompt_sha,
        a.model != b.model,
    ensures
        a.redis_key() != b.redis_key(),
{
    if a.redis_key() == b.redis_key() {
        let n = a.namespace.len() as int + 1;
        assert(a.redis_key().len() == n + a.model.len() + 1 + a.prompt_sha.len());
        assert(b.redis_key().len() == n + b.model.len() + 1 + b.prompt_sha.len());
        assert(a.redis_key().subrange(n, n + a.model.len()) =~= a.model);
        assert(b.redis_key().subrange(n, n + b.model.len()) =~= b.model);
    }
}

/// Two keys that differ in the namespace alone have different texts.
pub proof fn redis_key_changes_with_namespace(a: KeyView, b: KeyView)
    requires
        a.namespace != b.namespace,
        a.model == b.model,
        a.prompt_sha == b.prompt_sha,
    ensures
        a.redis_key() != b.redis_key(),
{
    if a.redis_key() == b.redis_key() {
        let rest = 2 + a.model.len() + a.prompt_sha.len();
        assert(a.redis_key().len() == a.namespace.len() + rest);
        assert(b.redis_key().len() == b.namespace.len() + rest);
        assert(a.redis_key().take(a.namespace.len() as int) =~= a.namespace);
        assert(b.redis_key().take(b.namespace.len() as int) =~= b.namespace);
    }
}

/// Two keys that differ in the digest alone have different texts.
pub proof fn redis_key_changes_with_prompt(a: KeyView, b: KeyView)
    requires
        a.namespace == b.namespace,
        a.model == b.model,
        a.prompt_sha != b.prompt_sha,
    ensures
        a.redis_key() != b.redis_key(),
{
    if a.redis_key() == b.redis_key() {
        let n = a.namespace.len() + a.model.len() + 2;
        assert(a.redis_key().skip(n as int) =~= a.prompt_sha);
        assert(b.redis_key().skip(n as int) =~= b.prompt_sha);
    }
}

/// What is stated of a key and of messages is stated of the whole of them.
pub proof fn keys_are_seen_whole(key: CacheKey, messages: Seq<(&str, &str)>, i: int)
    ensures
        key@.namespace == key.namespace@,
        key@.model == key.model@,
        key@.prompt_sha == key.prompt_sha@,
        message_views(messages).len() == messages.len(),
        0 <= i < messages.len() ==> message_views(messages)[i] == (messages[i].0@, messages[i].1@),
{
}

} // verus!
