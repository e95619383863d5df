//! What the loopback media server may serve, and how a URL names it.
//!
//! Every URL carries the per-run token, and only paths admitted at import
//! are ever served, matched whole: there is no directory to walk out of and
//! no prefix to escape. A wrong token and a path never imported get the same
//! answer, so the reply is no oracle for what is on the disk.

use vstd::prelude::*;
use vstd::utf8::*;

use crate::scan::{find_in_window, first_index_of, window_string};
use crate::text::{chars_of, push_text, string_from_chars};
use crate::url::{decode, decoded_path, encode, encoded_path};

verus! {

/// The server's state as the contracts see it.
pub struct ServerView {
    /// Where the server is reached, e.g. `http://127.0.0.1:8080`.
    pub origin: Seq<char>,
    /// The per-run secret every URL carries.
    pub token: Seq<char>,
    /// The paths admitted so far.
    pub allowed: Set<Seq<char>>,
}

/// The running server: where to reach it, and what it is allowed to serve.
/// Its token is one URL segment: it holds no `/`.
pub struct MediaServer {
    origin: String,
    token: String,
    allowed: Vec<String>,
}

impl MediaServer {
    /// The token never holds a `/`, so it stays one segment of every URL.
    #[verifier::type_invariant]
    spec fn token_is_one_segment(self) -> bool {
        !self.token@.contains('/')
    }
}

/// The URL minted for `path`: origin, token, and the path as one segment.
pub open spec fn url_of(server: ServerView, path: Seq<char>) -> Seq<char> {
    server.origin + seq!['/'] + server.token + seq!['/'] + encoded_path(path)
}

/// The file a request target names, if this server may serve it: the
/// target must be `/`, the token, `/`, and the encoding of an admitted path.
pub open spec fn resolved(server: ServerView, target: Seq<char>) -> Option<Seq<char>> {
    if target.len() > 0 && target[0] == '/' {
        let rest = target.skip(1);
        let slash = first_index_of(rest, '/');
        if slash < rest.len() && rest.take(slash) == server.token {
            match decoded_path(rest.skip(slash + 1)) {
                Some(path) => if server.allowed.contains(path) {
                    Some(path)
                } else {
                    None
                },
                None => None,
            }
        } else {
            None
        }
    } else {
        None
    }
}

impl View for MediaServer {
    type V = ServerView;

    closed spec fn view(&self) -> ServerView {
        ServerView {
            origin: self.origin@,
            token: self.token@,
            allowed: Set::new(
                |path: Seq<char>|
                    exists|i: int| 0 <= i < self.allowed@.len() && #[trigger] self.allowed@[i]@ == path,
            ),
        }
    }
}

/// Compares without returning early, so a wrong token cannot be found one
/// character at a time by watching how long the reply takes.
pub fn constant_time_eq(left: &[u8], right: &[u8]) -> (same: bool)
    ensures
        same == (left@ == right@),
{
    if left.len() != right.len() {
        return false;
    }
    let mut acc: u8 = 0;
    let mut i: usize = 0;
    while i < left.len()
        invariant
            left@.len() == right@.len(),
            i <= left@.len(),
            acc == 0 <==> forall|j: int| 0 <= j < i ==> left@[j] == right@[j],
        decreases left@.len() - i,
    {
        let a = left[i];
        let b = right[i];
        let next = acc | (a ^ b);
        assert(next == 0 <==> (acc == 0 && a == b)) by (bit_vector)
            requires
                next == acc | (a ^ b),
        ;
        acc = next;
        i += 1;
    }
    assert(acc == 0 <==> left@ =~= right@);
    acc == 0
}

/// A lower-case hexadecimal digit.
pub open spec fn lower_hex(value: u8) -> char {
    if value < 10 {
        (48 + value) as char
    } else {
        (87 + value) as char
    }
}

/// `{:02x}` of every byte, in order: the token's text.
pub open spec fn hex_of(bytes: Seq<u8>) -> Seq<char>
    decreases bytes.len(),
{
    if bytes.len() == 0 {
        Seq::empty()
    } else {
        hex_of(bytes.drop_last()) + seq![lower_hex(bytes.last() / 16), lower_hex(bytes.last() % 16)]
    }
}

/// Writes the per-run secret's bytes as lower-case hex, two digits each.
pub fn hex_token(bytes: &[u8]) -> (token: String)
    ensures
        token@ == hex_of(bytes@),
        token@.len() == 2 * bytes@.len(),
        !token@.contains('/'),
{
    let mut out: Vec<char> = Vec::new();
    let mut i: usize = 0;
    while i < bytes.len()
        invariant
            i <= bytes@.len(),
            out@ == hex_of(bytes@.take(i as int)),
            out@.len() == 2 * i,
            !out@.contains('/'),
        decreases bytes@.len() - i,
    {
        let byte = bytes[i];
        let high = byte / 16;
        let low = byte % 16;
        let high_char = if high < 10 {
            (48 + high) as char
        } else {
            (87 + high) as char
        };
        let low_char = if low < 10 {
            (48 + low) as char
        } else {
            (87 + low) as char
        };
        let ghost before = out@;
        out.push(high_char);
        out.push(low_char);
        proof {
            assert(bytes@.take(i + 1).drop_last() =~= bytes@.take(i as int));
            assert(out@ =~= before + seq![high_char, low_char]);
            assert forall|j: int| 0 <= j < out@.len() implies out@[j] != '/' by {
                if j < before.len() {
                    assert(out@[j] == before[j]);
                }
            }
        }
        i += 1;
    }
    assert(bytes@.take(bytes@.len() as int) =~= bytes@);
    string_from_chars(&out)
}

/// Equal byte encodings mean equal text.
proof fn lemma_same_bytes_same_text(left: Seq<char>, right: Seq<char>)
    requires
        encode_utf8(left) == encode_utf8(right),
    ensures
        left == right,
{
    encode_utf8_decode_utf8(left);
    encode_utf8_decode_utf8(right);
}

impl MediaServer {
    /// A server reached at `origin` whose URLs carry `token`, with nothing
    /// admitted yet. The token is one URL segment, so it holds no `/`.
    pub fn new(origin: String, token: String) -> (server: Self)
        requires
            !token@.contains('/'),
        ensures
            server@.origin == origin@,
            server@.token == token@,
            server@.allowed == Set::<Seq<char>>::empty(),
    {
        let server = MediaServer { origin, token, allowed: Vec::new() };
        assert(server@.allowed =~= Set::<Seq<char>>::empty());
        server
    }

    /// Whether `path` has been admitted.
    pub fn is_allowed(&self, path: &str) -> (allowed: bool)
        ensures
            allowed == self@.allowed.contains(path@),
    {
        let wanted = path.to_owned();
        let mut i: usize = 0;
        while i < self.allowed.len()
            invariant
                i <= self.allowed@.len(),
                wanted@ == path@,
                forall|j: int| 0 <= j < i ==> self.allowed@[j]@ != path@,
            decreases self.allowed@.len() - i,
        {
            if self.allowed[i] == wanted {
                assert(self.allowed@[i as int]@ == path@);
                return true;
            }
            i += 1;
        }
        false
    }

    /// Admits one file. Admitting a path twice is the same as admitting it
    /// once.
    pub fn allow(&mut self, path: &str)
        ensures
            final(self)@.origin == old(self)@.origin,
            final(self)@.token == old(self)@.token,
            final(self)@.allowed == old(self)@.allowed.insert(path@),
    {
        proof {
            use_type_invariant(&*self);
        }
        if !self.is_allowed(path) {
            let owned = path.to_owned();
            let mut allowed: Vec<String> = Vec::new();
            std::mem::swap(&mut allowed, &mut self.allowed);
            allowed.push(owned);
            self.allowed = allowed;
            proof {
                let before = old(self)@.allowed.insert(path@);
                assert forall|p: Seq<char>| self@.allowed.contains(p) == before.contains(p) by {
                    if before.contains(p) && p != path@ {
                        let i = choose|i: int|
                            0 <= i < old(self).allowed@.len() && #[trigger] old(
                                self,
                            ).allowed@[i]@ == p;
                        assert(self.allowed@[i] == old(self).allowed@[i]);
                    }
                    if p == path@ {
                        assert(self.allowed@[self.allowed@.len() - 1]@ == p);
                    }
                }
                assert(self@.allowed =~= before);
            }
        } else {
            assert(self@.allowed =~= old(self)@.allowed.insert(path@));
        }
    }

    /// The URL the webview should use for `path`, or `None` when the file
    /// was never admitted. What follows the origin in the URL resolves back
    /// to exactly `path`.
    pub fn url_for(&self, path: &str) -> (url: Option<String>)
        ensures
            url is Some <==> self@.allowed.contains(path@),
            url matches Some(text) ==> text@ == url_of(self@, path@),
            url matches Some(text) ==> resolved(self@, text@.skip(self@.origin.len() as int))
                == Some(path@),
    {
        proof {
            use_type_invariant(self);
        }
        if !self.is_allowed(path) {
            return None;
        }
        let mut out: Vec<char> = Vec::new();
        push_text(&mut out, self.origin.as_str());
        out.push('/');
        push_text(&mut out, self.token.as_str());
        out.push('/');
        let segment = encode(path);
        push_text(&mut out, segment.as_str());
        assert(out@ =~= url_of(self@, path@));
        proof {
            lemma_minted_url_resolves(self@, path@);
            assert(out@.skip(self@.origin.len() as int) =~= seq!['/'] + self@.token + seq!['/']
                + encoded_path(path@));
        }
        Some(string_from_chars(&out))
    }

    /// Turns a request target into a file this server may serve.
    ///
    /// Every failure is the same `None`: a wrong token must not be told
    /// apart from a path that was never imported.
    pub fn resolve(&self, target: &str) -> (path: Option<String>)
        ensures
            path is Some <==> resolved(self@, target@) is Some,
            path matches Some(text) ==> text@ == resolved(self@, target@)->0,
    {
        let chars = chars_of(target);
        let length = chars.len();
        if length == 0 || chars[0] != '/' {
            return None;
        }
        let ghost rest = target@.skip(1);
        assert(rest =~= chars@.subrange(1, length as int));
        let slash = find_in_window(&chars, 1, length, '/');
        if slash == length {
            return None;
        }
        assert(rest.take(slash - 1) =~= chars@.subrange(1, slash as int));
        assert(rest.skip(slash - 1 + 1) =~= chars@.subrange(slash + 1, length as int));
        let token = window_string(&chars, 1, slash);
        let same = constant_time_eq(token.as_str().as_bytes(), self.token.as_str().as_bytes());
        proof {
            if same {
                lemma_same_bytes_same_text(token@, self.token@);
            }
        }
        if !same {
            return None;
        }
        let encoded = window_string(&chars, slash + 1, length);
        let decoded = match decode(encoded.as_str()) {
            Some(decoded) => decoded,
            None => return None,
        };
        if self.is_allowed(decoded.as_str()) {
            Some(decoded)
        } else {
            None
        }
    }
}

/// The URL minted for an admitted path leads back to it: the part after the
/// origin resolves to exactly that path.
pub proof fn lemma_minted_url_resolves(server: ServerView, path: Seq<char>)
    requires
        server.allowed.contains(path),
        !server.token.contains('/'),
    ensures
        resolved(server, seq!['/'] + server.token + seq!['/'] + encoded_path(path)) == Some(path),
{
    let target = seq!['/'] + server.token + seq!['/'] + encoded_path(path);
    let rest = target.skip(1);
    assert(rest =~= server.token + seq!['/'] + encoded_path(path));
    lemma_first_index_after_prefix(server.token, encoded_path(path));
    assert(rest.take(server.token.len() as int) =~= server.token);
    assert(rest.skip(server.token.len() as int + 1) =~= encoded_path(path));
    crate::url::lemma_decode_inverts_encode(path);
}

/// The first `/` of `token`, `/`, `tail` is the one after `token` when the
/// token holds none.
proof fn lemma_first_index_after_prefix(token: Seq<char>, tail: Seq<char>)
    requires
        !token.contains('/'),
    ensures
        first_index_of(token + seq!['/'] + tail, '/') == token.len(),
    decreases token.len(),
{
    let whole = token + seq!['/'] + tail;
    if token.len() == 0 {
        assert(whole[0] == '/');
    } else {
        assert(whole[0] == token[0]);
        assert(token[0] != '/');
        let shorter = token.skip(1);
        assert(!shorter.contains('/')) by {
            if shorter.contains('/') {
                let i = choose|i: int| 0 <= i < shorter.len() && shorter[i] == '/';
                assert(token[i + 1] == '/');
            }
        }
        lemma_first_index_after_prefix(shorter, tail);
        assert(whole.skip(1) =~= shorter + seq!['/'] + tail);
    }
}

/// Only admitted paths resolve, and only through the token: whatever
/// target resolves names an admitted path and starts with `/`, the token
/// and `/`.
pub proof fn lemma_resolved_is_admitted(server: ServerView, target: Seq<char>)
    requires
        resolved(server, target) is Some,
    ensures
        server.allowed.contains(resolved(server, target)->0),
        target.len() > server.token.len() + 1,
        target.subrange(1, server.token.len() as int + 1) == server.token,
        target[0] == '/',
        target[server.token.len() as int + 1] == '/',
{
    let rest = target.skip(1);
    let slash = first_index_of(rest, '/');
    lemma_first_index_is_target(rest, '/');
    assert(rest.take(slash) =~= target.subrange(1, slash + 1));
    assert(rest[slash] == target[slash + 1]);
}

/// `first_index_of` lands on the character it looks for, when it is there.
proof fn lemma_first_index_is_target(text: Seq<char>, target: char)
    ensures
        0 <= first_index_of(text, target) <= text.len(),
        first_index_of(text, target) < text.len() ==> text[first_index_of(text, target)]
            == target,
    decreases text.len(),
{
    if text.len() > 0 && text[0] != target {
        lemma_first_index_is_target(text.skip(1), target);
    }
}

/// Admitting a path is what makes a URL for it: once admitted, a path has
/// exactly the URL of the origin, the token and its encoding, and the paths
/// admitted before stay admitted.
pub proof fn lemma_admitted_path_has_url(server: ServerView, path: Seq<char>, other: Seq<char>)
    ensures
        ({
            let admitted = ServerView { allowed: server.allowed.insert(path), ..server };
            &&& admitted.allowed.contains(path)
            &&& server.allowed.contains(other) ==> admitted.allowed.contains(other)
            &&& url_of(admitted, path) == server.origin + seq!['/'] + server.token + seq!['/']
                + encoded_path(path)
        }),
{
}

} // verus!
