//! The authentication guard: decides, from the `Authorization` header of a
//! request and the credential store, whether the request goes on.
use base64::Engine as _;
use std::sync::Arc;
use vstd::prelude::*;
use vstd::utf8::{decode_utf8, encode_utf8, is_char_boundary, valid_utf8};
use crate::credentials::{is_field, CredentialStore};
use crate::text::{
    char_vec, fields_of, find_char, has_prefix, index_of, lemma_index_from, nonempty_fields,
    parse_u64, parsed_u64, starts_with, views_of,
};

verus! {

/// How the guard ended for one request.
#[derive(Debug, Clone, Copy, PartialEq, Eq, Structural)]
pub enum AuthOutcome {
    /// The request carried no `Authorization` header.
    NoHeader,
    /// The header is not `Basic` with decodable credentials.
    Malformed,
    /// The username is unknown or the password does not match.
    BadCredentials,
    /// The credentials match the store.
    Authorized,
}

/// What the guard does with a request: hand it on, or answer it itself.
#[derive(Debug, Clone, Copy, PartialEq, Eq, Structural)]
pub enum AuthDecision {
    Authorized,
    Rejected,
}

/// The decision that an outcome leads to.
pub open spec fn decision_of(o: AuthOutcome) -> AuthDecision {
    if o == AuthOutcome::Authorized {
        AuthDecision::Authorized
    } else {
        AuthDecision::Rejected
    }
}

impl AuthOutcome {
    pub fn decision(&self) -> (r: AuthDecision)
        ensures
            r == decision_of(*self),
    {
        match self {
            AuthOutcome::Authorized => AuthDecision::Authorized,
            _ => AuthDecision::Rejected,
        }
    }
}

/// The status of every rejection.
pub const UNAUTHORIZED_STATUS: u16 = 401;

/// The `WWW-Authenticate` value of every rejection.
pub open spec fn challenge_text() -> Seq<char> {
    seq!['B', 'a', 's', 'i', 'c', ' ', 'r', 'e', 'a', 'l', 'm', '=', '"', 'R', 'e', 's', 't', 'r', 'i', 'c', 't', 'e', 'd', '"']
}

/// The `WWW-Authenticate` value that a rejection carries.
pub fn challenge() -> (r: &'static str)
    ensures
        r@ == challenge_text(),
{
    let r = "Basic realm=\"Restricted\"";
    proof {
        reveal_strlit("Basic realm=\"Restricted\"");
        assert(r@ =~= challenge_text());
    }
    r
}

/// A byte that a header value may hold as text: visible ASCII or a tab.
pub open spec fn is_visible_ascii(b: u8) -> bool {
    (32 <= b && b < 127) || b == 9
}

/// A header value that reads as text.
pub open spec fn is_header_text(h: Seq<u8>) -> bool {
    forall|i: int| 0 <= i < h.len() ==> is_visible_ascii(#[trigger] h[i])
}

/// The blanks that separate the words of a header value.
pub open spec fn is_blank(b: u8) -> bool {
    b == 32 || b == 9
}

/// The first position at or after `i` that is not a blank.
pub open spec fn skip_blanks(h: Seq<u8>, i: int) -> int
    decreases h.len() - i,
{
    if 0 <= i < h.len() && is_blank(h[i]) {
        skip_blanks(h, i + 1)
    } else {
        i
    }
}

/// The first position at or after `i` that is a blank.
pub open spec fn skip_word(h: Seq<u8>, i: int) -> int
    decreases h.len() - i,
{
    if 0 <= i < h.len() && !is_blank(h[i]) {
        skip_word(h, i + 1)
    } else {
        i
    }
}

/// The scheme name `Basic`.
pub open spec fn basic_scheme() -> Seq<u8> {
    seq![66u8, 97u8, 115u8, 105u8, 99u8]
}

/// The token of a header value made of exactly two words, the first being
/// `Basic`; `None` for any other value.
pub open spec fn basic_token(h: Seq<u8>) -> Option<Seq<u8>> {
    let a = skip_blanks(h, 0);
    let b = skip_word(h, a);
    let c = skip_blanks(h, b);
    let d = skip_word(h, c);
    let e = skip_blanks(h, d);
    if a < b && c < d && e == h.len() && h.subrange(a, b) == basic_scheme() {
        Some(h.subrange(c, d))
    } else {
        None
    }
}

/// What base64's standard engine decodes from the text `s`, or `None` where
/// `s` is not padded standard base64.
pub uninterp spec fn base64_decoded(s: Seq<u8>) -> Option<Seq<u8>>;

/// Whether htpasswd_verify accepts `password` for the entry `username:hash`.
pub uninterp spec fn htpasswd_accepts(
    username: Seq<char>,
    hash: Seq<char>,
    password: Seq<char>,
) -> bool;

/// The username of decoded credentials: everything before the first `:`.
pub open spec fn user_part(t: Seq<char>) -> Seq<char> {
    t.take(index_of(t, ':'))
}

/// The password of decoded credentials: everything after the first `:`, or
/// nothing when there is no `:`.
pub open spec fn password_part(t: Seq<char>) -> Seq<char> {
    if index_of(t, ':') < t.len() {
        t.skip(index_of(t, ':') + 1)
    } else {
        Seq::empty()
    }
}

pub open spec fn apr1_prefix() -> Seq<char> {
    seq!['$', 'a', 'p', 'r', '1', '$']
}

pub open spec fn bcrypt_prefix() -> Seq<char> {
    seq!['$', '2', 'y', '$']
}

pub open spec fn sha1_prefix() -> Seq<char> {
    seq!['{', 'S', 'H', 'A', '}']
}

/// The value of a character in bcrypt's base64 alphabet, or -1.
pub open spec fn bcrypt_digit(c: char) -> int {
    let v = c as u32;
    if v == 46 {
        0
    } else if v == 47 {
        1
    } else if 65 <= v <= 90 {
        v - 65 + 2
    } else if 97 <= v <= 122 {
        v - 97 + 28
    } else if 48 <= v <= 57 {
        v - 48 + 54
    } else {
        -1
    }
}

/// A character of crypt's salt alphabet, `./0-9A-Za-z`.
pub open spec fn is_crypt_char(c: char) -> bool {
    let v = c as u32;
    v == 46 || v == 47 || (48 <= v <= 57) || (65 <= v <= 90) || (97 <= v <= 122)
}

/// A character on which pwhash's salt decoding fails rather than returning
/// an error: a control character, whose offset from the space underflows,
/// or U+0080, which indexes one past its table.
pub open spec fn breaks_crypt_salt(c: char) -> bool {
    (c as u32) < 32 || (c as u32) == 128
}

/// A `$2y$` hash that bcrypt's `verify` reads without error: its non-empty
/// `$`-separated fields are the prefix, a cost from 4 to 31, and 53
/// characters of bcrypt's alphabet (22 of salt, 31 of digest) with no stray
/// bits in the last character of either.
pub open spec fn is_bcrypt_hash(h: Seq<char>) -> bool {
    let f = fields_of(h, '$');
    &&& f.len() == 3
    &&& parsed_u64(f[1]) matches Some(cost) && 4 <= cost <= 31
    &&& f[2].len() == 53
    &&& forall|i: int| 0 <= i < 53 ==> bcrypt_digit(#[trigger] f[2][i]) >= 0
    &&& bcrypt_digit(f[2][21]) % 16 == 0
    &&& bcrypt_digit(f[2][52]) % 4 == 0
}

/// A stored hash that htpasswd_verify checks without failing: exactly the
/// hashes on which neither its parser nor the hash crates it calls panic.
/// An `$apr1$` hash needs byte 15 and character boundaries at bytes 14 and
/// 15, where its salt ends; a `$2y$` hash needs the shape bcrypt reads; a
/// `{SHA}` hash always passes; any other is a crypt hash, whose first salt
/// character, and second where the first is valid, must not break pwhash's
/// decoding.
pub open spec fn hash_checkable(h: Seq<char>) -> bool {
    if starts_with(h, apr1_prefix()) {
        let b = encode_utf8(h);
        b.len() >= 15 && is_char_boundary(b, 14) && is_char_boundary(b, 15)
    } else if starts_with(h, bcrypt_prefix()) {
        is_bcrypt_hash(h)
    } else if starts_with(h, sha1_prefix()) {
        true
    } else {
        h.len() == 0 || (!breaks_crypt_salt(h[0]) && (!is_crypt_char(h[0]) || h.len() < 2
            || !breaks_crypt_salt(h[1])))
    }
}

/// A password that can be checked against the stored hash `h`. For an
/// `$apr1$` hash, htpasswd_verify's MD5 code hashes a 64-byte block in place
/// from the password, through a pointer that need not be aligned (which
/// aborts the process), whenever one update of the password reaches past
/// the context's buffer by a whole block. Over all the updates of the
/// password that `md5_apr1_encode` makes, the buffer is at most 20 bytes
/// full when the password comes, so this happens exactly for passwords of
/// 84 bytes or more; shorter ones always pass through the aligned buffer.
pub open spec fn password_checkable(h: Seq<char>, password: Seq<char>) -> bool {
    starts_with(h, apr1_prefix()) ==> encode_utf8(password).len() <= 83
}

/// The outcome for a username and password.
pub open spec fn credentials_outcome(
    store: Map<Seq<char>, Seq<char>>,
    user: Seq<char>,
    password: Seq<char>,
) -> AuthOutcome {
    if store.contains_key(user) && hash_checkable(store[user]) && password_checkable(
        store[user],
        password,
    ) && htpasswd_accepts(
        user,
        store[user],
        password,
    ) {
        AuthOutcome::Authorized
    } else {
        AuthOutcome::BadCredentials
    }
}

/// The outcome for decoded credential bytes: text `username:password`.
pub open spec fn decoded_outcome(store: Map<Seq<char>, Seq<char>>, decoded: Seq<u8>) -> AuthOutcome {
    if valid_utf8(decoded) {
        let t = decode_utf8(decoded);
        credentials_outcome(store, user_part(t), password_part(t))
    } else {
        AuthOutcome::Malformed
    }
}

/// The outcome of the guard for a request whose `Authorization` header is
/// `header`.
pub open spec fn request_outcome(store: Map<Seq<char>, Seq<char>>, header: Option<Seq<u8>>) -> AuthOutcome {
    match header {
        None => AuthOutcome::NoHeader,
        Some(h) => if !is_header_text(h) {
            AuthOutcome::Malformed
        } else {
            match basic_token(h) {
                None => AuthOutcome::Malformed,
                Some(t) => match base64_decoded(t) {
                    None => AuthOutcome::Malformed,
                    Some(d) => decoded_outcome(store, d),
                },
            }
        },
    }
}

/// Relies on base64's `STANDARD` engine `decode`: its result is a function
/// of the text alone, `None` standing for its error.
#[verifier::external_body]
fn decode_base64(s: &[u8]) -> (r: Option<Vec<u8>>)
    ensures
        match r {
            Some(v) => base64_decoded(s@) == Some(v@),
            None => base64_decoded(s@) is None,
        },
{
    base64::engine::general_purpose::STANDARD.decode(s).ok()
}

/// Relies on `String::from_utf8`: the text when the bytes are valid UTF-8,
/// and an error otherwise.
#[verifier::external_body]
fn utf8_text(bytes: Vec<u8>) -> (r: Option<String>)
    ensures
        match r {
            Some(t) => valid_utf8(bytes@) && t@ == decode_utf8(bytes@),
            None => !valid_utf8(bytes@),
        },
{
    String::from_utf8(bytes).ok()
}

/// Relies on htpasswd_verify's `Htpasswd::new_owned` and `Htpasswd::check`:
/// whether `password` matches the one entry `username:hash`. The `requires`
/// leaves out the hashes and passwords on which the crate or the hash crates
/// it calls would panic or abort, and entries that would read as several
/// lines.
#[verifier::external_body]
fn htpasswd_check(username: &str, hash: &str, password: &str) -> (r: bool)
    requires
        is_field(username@),
        !hash@.contains('\n'),
        hash_checkable(hash@),
        password_checkable(hash@, password@),
    ensures
        r == htpasswd_accepts(username@, hash@, password@),
{
    htpasswd_verify::Htpasswd::new_owned(&format!("{}:{}", username, hash)).check(username, password)
}

/// The view of an optional header value.
pub open spec fn header_view(header: Option<&[u8]>) -> Option<Seq<u8>> {
    match header {
        Some(h) => Some(h@),
        None => None,
    }
}

/// Whether the header value reads as text.
pub fn header_is_text(h: &[u8]) -> (r: bool)
    ensures
        r == is_header_text(h@),
{
    let mut i: usize = 0;
    while i < h.len()
        invariant
            i <= h@.len(),
            forall|j: int| 0 <= j < i ==> is_visible_ascii(#[trigger] h@[j]),
        decreases h.len() - i,
    {
        let b = h[i];
        if !((32 <= b && b < 127) || b == 9) {
            return false;
        }
        i = i + 1;
    }
    true
}

fn skip_blanks_from(h: &[u8], i: usize) -> (r: usize)
    requires
        i <= h@.len(),
    ensures
        r == skip_blanks(h@, i as int),
        i <= r <= h@.len(),
{
    let mut j = i;
    while j < h.len() && (h[j] == 32 || h[j] == 9)
        invariant
            i <= j <= h@.len(),
            skip_blanks(h@, j as int) == skip_blanks(h@, i as int),
        decreases h.len() - j,
    {
        j = j + 1;
    }
    j
}

fn skip_word_from(h: &[u8], i: usize) -> (r: usize)
    requires
        i <= h@.len(),
    ensures
        r == skip_word(h@, i as int),
        i <= r <= h@.len(),
{
    let mut j = i;
    while j < h.len() && !(h[j] == 32 || h[j] == 9)
        invariant
            i <= j <= h@.len(),
            skip_word(h@, j as int) == skip_word(h@, i as int),
        decreases h.len() - j,
    {
        j = j + 1;
    }
    j
}

/// The token of a `Basic <token>` header value.
pub fn basic_token_of(h: &[u8]) -> (r: Option<Vec<u8>>)
    ensures
        match r {
            Some(t) => basic_token(h@) == Some(t@),
            None => basic_token(h@) is None,
        },
{
    let a = skip_blanks_from(h, 0);
    let b = skip_word_from(h, a);
    let c = skip_blanks_from(h, b);
    let d = skip_word_from(h, c);
    let e = skip_blanks_from(h, d);
    if !(a < b && c < d && e == h.len()) {
        return None;
    }
    if !(b - a == 5 && h[a] == 66 && h[a + 1] == 97 && h[a + 2] == 115 && h[a + 3] == 105 && h[a
        + 4] == 99) {
        proof {
            if h@.subrange(a as int, b as int) == basic_scheme() {
                assert(h@.subrange(a as int, b as int).len() == 5);
                assert(h@.subrange(a as int, b as int)[0] == h@[a as int]);
                assert(h@.subrange(a as int, b as int)[1] == h@[a + 1]);
                assert(h@.subrange(a as int, b as int)[2] == h@[a + 2]);
                assert(h@.subrange(a as int, b as int)[3] == h@[a + 3]);
                assert(h@.subrange(a as int, b as int)[4] == h@[a + 4]);
            }
        }
        return None;
    }
    assert(h@.subrange(a as int, b as int) =~= basic_scheme());
    let mut t: Vec<u8> = Vec::new();
    let mut i = c;
    while i < d
        invariant
            c <= i <= d,
            d <= h@.len(),
            t@ == h@.subrange(c as int, i as int),
        decreases d - i,
    {
        t.push(h[i]);
        assert(t@ =~= h@.subrange(c as int, i + 1));
        i = i + 1;
    }
    Some(t)
}

fn digit_of(c: char) -> (r: i32)
    ensures
        r == bcrypt_digit(c),
{
    let v = c as u32;
    if v == 46 {
        0
    } else if v == 47 {
        1
    } else if 65 <= v && v <= 90 {
        (v - 65 + 2) as i32
    } else if 97 <= v && v <= 122 {
        (v - 97 + 28) as i32
    } else if 48 <= v && v <= 57 {
        (v - 48 + 54) as i32
    } else {
        -1
    }
}

fn all_bcrypt_digits(g: &Vec<char>) -> (r: bool)
    ensures
        r == forall|j: int| 0 <= j < g@.len() ==> bcrypt_digit(#[trigger] g@[j]) >= 0,
{
    let mut i: usize = 0;
    while i < g.len()
        invariant
            i <= g@.len(),
            forall|j: int| 0 <= j < i ==> bcrypt_digit(#[trigger] g@[j]) >= 0,
        decreases g.len() - i,
    {
        if digit_of(g[i]) < 0 {
            assert(bcrypt_digit(g@[i as int]) < 0);
            return false;
        }
        i = i + 1;
    }
    true
}

fn bcrypt_shape(h: &str) -> (r: bool)
    ensures
        r == is_bcrypt_hash(h@),
{
    let f = nonempty_fields(h, '$');
    assert(views_of(f@).len() == f@.len());
    if f.len() != 3 {
        return false;
    }
    assert(views_of(f@)[1] == f@[1]@ && views_of(f@)[2] == f@[2]@);
    match parse_u64(f[1]) {
        Some(cost) => {
            if cost < 4 || cost > 31 {
                return false;
            }
        },
        None => {
            return false;
        },
    }
    let g = char_vec(f[2]);
    if g.len() != 53 {
        return false;
    }
    if !all_bcrypt_digits(&g) {
        return false;
    }
    digit_of(g[21]) % 16 == 0 && digit_of(g[52]) % 4 == 0
}

fn breaks_salt(c: char) -> (r: bool)
    ensures
        r == breaks_crypt_salt(c),
{
    (c as u32) < 32 || (c as u32) == 128
}

fn crypt_char(c: char) -> (r: bool)
    ensures
        r == is_crypt_char(c),
{
    let v = c as u32;
    v == 46 || v == 47 || (48 <= v && v <= 57) || (65 <= v && v <= 90) || (97 <= v && v <= 122)
}

fn apr1_chars() -> (r: Vec<char>)
    ensures
        r@ == apr1_prefix(),
{
    let r = vec!['$', 'a', 'p', 'r', '1', '$'];
    assert(r@ =~= apr1_prefix());
    r
}

/// Whether a stored hash can be checked without failing.
pub fn is_checkable_hash(h: &str) -> (r: bool)
    ensures
        r == hash_checkable(h@),
{
    let hc = char_vec(h);
    let bcrypt = vec!['$', '2', 'y', '$'];
    let sha1 = vec!['{', 'S', 'H', 'A', '}'];
    assert(bcrypt@ =~= bcrypt_prefix());
    assert(sha1@ =~= sha1_prefix());
    if has_prefix(&hc, &apr1_chars()) {
        h.as_bytes().len() >= 15 && h.is_char_boundary(14) && h.is_char_boundary(15)
    } else if has_prefix(&hc, &bcrypt) {
        bcrypt_shape(h)
    } else if has_prefix(&hc, &sha1) {
        true
    } else {
        let n = hc.len();
        n == 0 || (!breaks_salt(hc[0]) && (!crypt_char(hc[0]) || n < 2 || !breaks_salt(hc[1])))
    }
}

/// Whether a password can be checked against the stored hash `h` without
/// failing.
pub fn is_checkable_password(h: &str, password: &str) -> (r: bool)
    ensures
        r == password_checkable(h@, password@),
{
    let hc = char_vec(h);
    !has_prefix(&hc, &apr1_chars()) || password.as_bytes().len() <= 83
}

/// The outcome for decoded credentials `username:password`: authorized
/// exactly when the username is in the store and the crate accepts the
/// password for its hash. A stored hash or a password that the crate could
/// not check without failing is rejected instead.
pub fn check_credentials(store: &CredentialStore, text: &str) -> (r: AuthOutcome)
    ensures
        r == credentials_outcome(store@, user_part(text@), password_part(text@)),
{
    let cs = char_vec(text);
    let k = find_char(&cs, ':');
    proof {
        lemma_index_from(cs@, ':', 0);
    }
    let user = text.substring_char(0, k).to_owned();
    assert(user@ =~= user_part(text@));
    let password: &str = if k < cs.len() {
        let p = text.substring_char(k + 1, cs.len());
        assert(p@ =~= password_part(text@));
        p
    } else {
        let p = "";
        proof {
            reveal_strlit("");
        }
        assert(p@ =~= password_part(text@));
        p
    };
    match store.lookup(&user) {
        None => AuthOutcome::BadCredentials,
        Some(hash) => {
            if !is_checkable_hash(hash.as_str()) || !is_checkable_password(
                hash.as_str(),
                password,
            ) {
                return AuthOutcome::BadCredentials;
            }
            if htpasswd_check(user.as_str(), hash.as_str(), password) {
                AuthOutcome::Authorized
            } else {
                AuthOutcome::BadCredentials
            }
        },
    }
}

/// The outcome for the bytes that the header's token decoded to.
pub fn check_decoded(store: &CredentialStore, decoded: Vec<u8>) -> (r: AuthOutcome)
    ensures
        r == decoded_outcome(store@, decoded@),
{
    match utf8_text(decoded) {
        None => AuthOutcome::Malformed,
        Some(text) => check_credentials(store, text.as_str()),
    }
}

/// Runs the guard on the `Authorization` header of a request, if it has one.
pub fn authenticate(store: &CredentialStore, header: Option<&[u8]>) -> (r: AuthOutcome)
    ensures
        r == request_outcome(store@, header_view(header)),
{
    match header {
        None => AuthOutcome::NoHeader,
        Some(h) => {
            if !header_is_text(h) {
                return AuthOutcome::Malformed;
            }
            match basic_token_of(h) {
                None => AuthOutcome::Malformed,
                Some(t) => match decode_base64(t.as_slice()) {
                    None => AuthOutcome::Malformed,
                    Some(d) => check_decoded(store, d),
                },
            }
        },
    }
}

/// The credentials text that a header value carries: the UTF-8 text of the
/// base64 token of a `Basic` header, or `None` when the value is not such a
/// header.
pub open spec fn carried_credentials(h: Seq<u8>) -> Option<Seq<char>> {
    if !is_header_text(h) {
        None
    } else {
        match basic_token(h) {
            None => None,
            Some(t) => match base64_decoded(t) {
                None => None,
                Some(d) => if valid_utf8(d) {
                    Some(decode_utf8(d))
                } else {
                    None
                },
            },
        }
    }
}

/// A request whose `Authorization` header is absent, or does not carry
/// credentials, is rejected: it never reaches the handler.
pub proof fn lemma_malformed_header_rejected(
    store: Map<Seq<char>, Seq<char>>,
    header: Option<Seq<u8>>,
)
    requires
        header matches Some(h) ==> carried_credentials(h) is None,
    ensures
        request_outcome(store, header) == AuthOutcome::NoHeader || request_outcome(store, header)
            == AuthOutcome::Malformed,
        decision_of(request_outcome(store, header)) == AuthDecision::Rejected,
{
}

/// A header that carries a username of the store with a password that the
/// stored hash accepts is authorized, wherever the hash crates can check
/// that pair without failing.
pub proof fn lemma_valid_credentials_authorized(store: Map<Seq<char>, Seq<char>>, h: Seq<u8>)
    requires
        carried_credentials(h) matches Some(t) && store.contains_key(user_part(t))
            && hash_checkable(store[user_part(t)]) && password_checkable(
            store[user_part(t)],
            password_part(t),
        ) && htpasswd_accepts(
            user_part(t),
            store[user_part(t)],
            password_part(t),
        ),
    ensures
        request_outcome(store, Some(h)) == AuthOutcome::Authorized,
        decision_of(request_outcome(store, Some(h))) == AuthDecision::Authorized,
{
}

/// An unknown username and a wrong password for a known one end alike: the
/// same outcome, and so the same rejection.
pub proof fn lemma_bad_credentials_indistinguishable(
    store: Map<Seq<char>, Seq<char>>,
    unknown_user: Seq<u8>,
    wrong_password: Seq<u8>,
)
    requires
        carried_credentials(unknown_user) matches Some(t) && !store.contains_key(user_part(t)),
        carried_credentials(wrong_password) matches Some(t) && store.contains_key(user_part(t))
            && !htpasswd_accepts(user_part(t), store[user_part(t)], password_part(t)),
    ensures
        request_outcome(store, Some(unknown_user)) == AuthOutcome::BadCredentials,
        request_outcome(store, Some(wrong_password)) == AuthOutcome::BadCredentials,
        decision_of(request_outcome(store, Some(unknown_user))) == AuthDecision::Rejected,
        decision_of(request_outcome(store, Some(wrong_password))) == AuthDecision::Rejected,
{
}

/// The guard, built once at startup around the shared, read-only credential
/// store.
pub struct AuthMiddleware {
    htpasswd: Arc<CredentialStore>,
}

/// The guard placed in front of one downstream service.
pub struct AuthMiddlewareService<S> {
    service: Arc<S>,
    htpasswd: Arc<CredentialStore>,
}

impl AuthMiddleware {
    /// The store that the guard checks against.
    pub closed spec fn store(&self) -> Map<Seq<char>, Seq<char>> {
        (*self.htpasswd)@
    }

    pub fn new(htpasswd: Arc<CredentialStore>) -> (r: Self)
        ensures
            r.store() == (*htpasswd)@,
    {
        AuthMiddleware { htpasswd }
    }

    /// The guard in front of `service`, sharing this guard's store.
    pub fn new_transform<S>(&self, service: S) -> (r: AuthMiddlewareService<S>)
        ensures
            r.store() == self.store(),
            *r.inner() == service,
    {
        AuthMiddlewareService { service: Arc::new(service), htpasswd: Arc::clone(&self.htpasswd) }
    }

    /// Runs the guard on the `Authorization` header of a request.
    pub fn authorize(&self, header: Option<&[u8]>) -> (r: AuthOutcome)
        ensures
            r == request_outcome(self.store(), header_view(header)),
    {
        authenticate(&self.htpasswd, header)
    }
}

impl<S> AuthMiddlewareService<S> {
    /// The store that the guard checks against.
    pub closed spec fn store(&self) -> Map<Seq<char>, Seq<char>> {
        (*self.htpasswd)@
    }

    /// The downstream service.
    pub closed spec fn inner(&self) -> Arc<S> {
        self.service
    }

    /// The downstream service, to which an authorized request goes on.
    pub fn service(&self) -> (r: &Arc<S>)
        ensures
            r == self.inner(),
    {
        &self.service
    }

    /// Runs the guard on the `Authorization` header of a request.
    pub fn authorize(&self, header: Option<&[u8]>) -> (r: AuthOutcome)
        ensures
            r == request_outcome(self.store(), header_view(header)),
    {
        authenticate(&self.htpasswd, header)
    }
}

} // verus!
