//! The tone3000 catalogue: request addresses, how each answer's status is
//! handled, and how a downloaded model is named and recorded.
use crate::discover::TONE3000_BASE_URL;
use crate::text::{chars_of, dec_int, dec_nat, i64_to_text, push_char, push_decimal};
use crate::types::ModelInfo;
use vstd::prelude::*;
use vstd::utf8::encode_utf8;

verus! {

/// The user a tone belongs to.
pub struct Tone3000EmbeddedUser {
    pub username: String,
    pub url: String,
}

/// A tone (a set of models) on tone3000.
pub struct Tone3000Tone {
    pub id: i64,
    pub title: String,
    pub description: Option<String>,
    pub gear: String,
    pub user: Tone3000EmbeddedUser,
    pub downloads_count: i64,
    pub favorites_count: i64,
    pub url: String,
}

/// A model file of a tone.
pub struct Tone3000Model {
    pub id: i64,
    pub tone_id: i64,
    pub name: String,
    pub size: Option<String>,
    pub architecture_version: String,
    pub model_url: String,
}

/// One page of search results.
pub struct SearchResult {
    pub tones: Vec<Tone3000Tone>,
    pub total: i64,
    pub page: i32,
}

/// A byte that percent-encoding leaves as it is: an ASCII letter or digit,
/// `-`, `.`, `_` or `~`.
pub open spec fn is_url_safe_byte(b: u8) -> bool {
    (48 <= b <= 57) || (65 <= b <= 90) || (97 <= b <= 122) || b == 45 || b == 46 || b == 95 || b == 126
}

/// Uppercase hexadecimal digit of `d` (0..16).
pub open spec fn hex_upper(d: int) -> char {
    if d < 10 { (48 + d) as char } else { (55 + d) as char }
}

/// Percent-encoding of bytes: safe bytes as themselves, any other as `%`
/// and two uppercase hex digits.
pub open spec fn percent_encode(bytes: Seq<u8>) -> Seq<char>
    decreases bytes.len(),
{
    if bytes.len() == 0 {
        Seq::empty()
    } else {
        let b = bytes.last();
        percent_encode(bytes.drop_last()) + if is_url_safe_byte(b) {
            seq![b as char]
        } else {
            seq!['%', hex_upper((b / 16) as int), hex_upper((b % 16) as int)]
        }
    }
}

/// `urlencoding::encode`: percent-encodes every UTF-8 byte of `s` except
/// ASCII letters and digits and `-`, `_`, `.`, `~`.
#[verifier::external_body]
fn url_encode(s: &str) -> (r: String)
    ensures
        r@ == percent_encode(encode_utf8(s@)),
{
    urlencoding::encode(s).into_owned()
}

/// Whether `c` is alphanumeric in Unicode's sense (alphabetic or numeric).
pub uninterp spec fn char_is_alphanumeric(c: char) -> bool;

/// `char::is_alphanumeric`; for ASCII that is exactly the letters and
/// digits.
#[verifier::external_body]
fn is_alphanumeric(c: char) -> (r: bool)
    ensures
        r == char_is_alphanumeric(c),
        (c as u32) < 128 ==> (r <==> (('0' <= c && c <= '9') || ('A' <= c && c <= 'Z') || ('a' <= c && c <= 'z'))),
{
    c.is_alphanumeric()
}

/// The search address: always NAM models of architecture 2, 25 per page.
pub open spec fn search_url_text(sort: Seq<char>, page: u32, query: Option<Seq<char>>, gear: Option<Seq<char>>) -> Seq<char> {
    TONE3000_BASE_URL@ + "/tones/search?platform=nam&architecture=2&sort="@ + sort + "&page="@ + dec_nat(
        page as nat,
    ) + "&page_size=25"@ + match query {
        Some(q) => "&query="@ + percent_encode(encode_utf8(q)),
        None => Seq::empty(),
    } + match gear {
        Some(g) => "&gears="@ + g,
        None => Seq::empty(),
    }
}

/// The view of an optional string slice.
pub open spec fn opt_str(s: Option<&str>) -> Option<Seq<char>> {
    match s {
        Some(x) => Some(x@),
        None => None,
    }
}

/// Builds the search address; the sort defaults to "trending" and the page
/// to 1, and the query is percent-encoded.
pub fn search_url(query: Option<&str>, gear: Option<&str>, sort: Option<&str>, page: Option<u32>) -> (r: String)
    ensures
        r@ == search_url_text(
            match sort {
                Some(s) => s@,
                None => "trending"@,
            },
            match page {
                Some(p) => p,
                None => 1,
            },
            opt_str(query),
            opt_str(gear),
        ),
{
    let mut url = String::from_str(TONE3000_BASE_URL);
    url.append("/tones/search?platform=nam&architecture=2&sort=");
    match sort {
        Some(s) => url.append(s),
        None => url.append("trending"),
    }
    url.append("&page=");
    let page_val: u32 = match page {
        Some(p) => p,
        None => 1,
    };
    push_decimal(&mut url, page_val as u64);
    url.append("&page_size=25");
    if let Some(q) = query {
        url.append("&query=");
        let enc = url_encode(q);
        url.append(enc.as_str());
    }
    if let Some(g) = gear {
        url.append("&gears=");
        url.append(g);
    }
    url
}

/// Builds the address listing up to 100 models of a tone.
pub fn models_url(tone_id: i64) -> (r: String)
    ensures
        r@ == TONE3000_BASE_URL@ + "/models?tone_id="@ + dec_int(tone_id as int) + "&page_size=100"@,
{
    let mut url = String::from_str(TONE3000_BASE_URL);
    url.append("/models?tone_id=");
    let t = i64_to_text(tone_id);
    url.append(t.as_str());
    url.append("&page_size=100");
    url
}

/// Builds the address of one model.
pub fn model_url(model_id: i64) -> (r: String)
    ensures
        r@ == TONE3000_BASE_URL@ + "/models/"@ + dec_int(model_id as int),
{
    let mut url = String::from_str(TONE3000_BASE_URL);
    url.append("/models/");
    let t = i64_to_text(model_id);
    url.append(t.as_str());
    url
}

/// The token endpoint.
pub fn token_url() -> (r: String)
    ensures
        r@ == TONE3000_BASE_URL@ + "/oauth/token"@,
{
    let mut url = String::from_str(TONE3000_BASE_URL);
    url.append("/oauth/token");
    url
}

/// The signed-in user's profile endpoint.
pub fn user_url() -> (r: String)
    ensures
        r@ == TONE3000_BASE_URL@ + "/user"@,
{
    let mut url = String::from_str(TONE3000_BASE_URL);
    url.append("/user");
    url
}

/// What to do with an answer, given its HTTP status.
pub enum StatusAction {
    /// Read the body.
    Proceed,
    /// The session is over: forget the tokens and report "SESSION_EXPIRED".
    SignOut,
    /// Report this error.
    Fail(String),
}

/// A 2xx status.
pub open spec fn is_success(status: u16) -> bool {
    200 <= status <= 299
}

/// The view of a status action.
pub open spec fn action_view(a: StatusAction) -> Option<Option<Seq<char>>> {
    match a {
        StatusAction::Proceed => None,
        StatusAction::SignOut => Some(None),
        StatusAction::Fail(m) => Some(Some(m@)),
    }
}

/// A failure message that ends with the status as text.
fn fail_with(prefix: &str, status_text: &str) -> (r: StatusAction)
    ensures
        action_view(r) == Some(Some(prefix@ + status_text@)),
{
    let mut m = String::from_str(prefix);
    m.append(status_text);
    StatusAction::Fail(m)
}

/// Handling of a search answer: 401 ends the session, 429 is
/// "RATE_LIMITED", another failure reports the status.
pub fn search_status(status: u16, status_text: &str) -> (r: StatusAction)
    ensures
        action_view(r) == if status == 401 {
            Some(None)
        } else if status == 429 {
            Some(Some("RATE_LIMITED"@))
        } else if !is_success(status) {
            Some(Some("Search failed: HTTP "@ + status_text@))
        } else {
            None::<Option<Seq<char>>>
        },
{
    if status == 401 {
        StatusAction::SignOut
    } else if status == 429 {
        StatusAction::Fail(String::from_str("RATE_LIMITED"))
    } else if !(200 <= status && status <= 299) {
        fail_with("Search failed: HTTP ", status_text)
    } else {
        StatusAction::Proceed
    }
}

/// Handling of a model-list answer: 401 ends the session, another failure
/// reports the status.
pub fn models_status(status: u16, status_text: &str) -> (r: StatusAction)
    ensures
        action_view(r) == if status == 401 {
            Some(None)
        } else if !is_success(status) {
            Some(Some("Models request failed: HTTP "@ + status_text@))
        } else {
            None::<Option<Seq<char>>>
        },
{
    if status == 401 {
        StatusAction::SignOut
    } else if !(200 <= status && status <= 299) {
        fail_with("Models request failed: HTTP ", status_text)
    } else {
        StatusAction::Proceed
    }
}

/// Handling of a single-model answer: 401 ends the session, another
/// failure reports the status.
pub fn model_fetch_status(status: u16, status_text: &str) -> (r: StatusAction)
    ensures
        action_view(r) == if status == 401 {
            Some(None)
        } else if !is_success(status) {
            Some(Some("Model fetch failed: HTTP "@ + status_text@))
        } else {
            None::<Option<Seq<char>>>
        },
{
    if status == 401 {
        StatusAction::SignOut
    } else if !(200 <= status && status <= 299) {
        fail_with("Model fetch failed: HTTP ", status_text)
    } else {
        StatusAction::Proceed
    }
}

/// Handling of a token-refresh answer: 400 ends the session; anything else
/// goes on to read the body.
pub fn refresh_status(status: u16) -> (r: StatusAction)
    ensures
        action_view(r) == if status == 400 { Some(None) } else { None::<Option<Seq<char>>> },
{
    if status == 400 {
        StatusAction::SignOut
    } else {
        StatusAction::Proceed
    }
}

/// How a status decision ends a request: whether the stored tokens are to
/// be forgotten (on sign-out only), and the request's outcome, which is
/// "SESSION_EXPIRED" on sign-out and the failure's message on failure.
pub fn status_outcome(action: StatusAction) -> (r: (bool, Result<(), String>))
    ensures
        r.0 == (action_view(action) == Some(None::<Seq<char>>)),
        action_view(action) is None ==> r.1 is Ok,
        action_view(action) == Some(None::<Seq<char>>) ==> (r.1 matches Err(e) && e@ == "SESSION_EXPIRED"@),
        action_view(action) matches Some(Some(m)) ==> (r.1 matches Err(e) && e@ == m),
{
    match action {
        StatusAction::Proceed => (false, Ok(())),
        StatusAction::SignOut => (true, Err(String::from_str("SESSION_EXPIRED"))),
        StatusAction::Fail(m) => (false, Err(m)),
    }
}

/// Handling of a token-exchange answer: a failure status reports
/// "Token exchange failed: " and the answer's body; a 2xx goes on.
pub fn exchange_failure(status: u16, body: &str) -> (r: Option<String>)
    ensures
        is_success(status) ==> r is None,
        !is_success(status) ==> (r matches Some(m) && m@ == "Token exchange failed: "@ + body@),
{
    if 200 <= status && status <= 299 {
        None
    } else {
        let mut m = String::from_str("Token exchange failed: ");
        m.append(body);
        Some(m)
    }
}

/// A character kept in a downloaded model's file name: letters and digits
/// (in Unicode's sense), `-` and `_`; anything else becomes `_`.
pub open spec fn safe_name_char(c: char) -> char {
    if char_is_alphanumeric(c) || c == '-' || c == '_' { c } else { '_' }
}

/// `s` without leading underscores.
pub open spec fn trim_start_underscores(s: Seq<char>) -> Seq<char>
    decreases s.len(),
{
    if s.len() > 0 && s[0] == '_' { trim_start_underscores(s.drop_first()) } else { s }
}

/// `s` without trailing underscores.
pub open spec fn trim_end_underscores(s: Seq<char>) -> Seq<char>
    decreases s.len(),
{
    if s.len() > 0 && s.last() == '_' { trim_end_underscores(s.drop_last()) } else { s }
}

/// The name a downloaded model is stored under: its tone3000 name with
/// unsafe characters replaced by `_` and underscores trimmed from both
/// ends, or `tone_{tone_id}` when nothing is left.
pub open spec fn downloaded_model_name(name: Seq<char>, tone_id: i64) -> Seq<char> {
    let t = trim_end_underscores(trim_start_underscores(name.map_values(|c: char| safe_name_char(c))));
    if t.len() == 0 { "tone_"@ + dec_int(tone_id as int) } else { t }
}

/// Makes the file-safe name of a downloaded model.
pub fn sanitize_model_name(name: &str, tone_id: i64) -> (r: String)
    ensures
        r@ == downloaded_model_name(name@, tone_id),
{
    let cs = chars_of(name);
    let ghost m = name@.map_values(|c: char| safe_name_char(c));
    let mut mapped: Vec<char> = Vec::with_capacity(cs.len());
    let mut i: usize = 0;
    while i < cs.len()
        invariant
            cs@ == name@,
            m == name@.map_values(|c: char| safe_name_char(c)),
            i <= cs@.len(),
            mapped@ == m.take(i as int),
        decreases cs@.len() - i,
    {
        let c = cs[i];
        let keep = is_alphanumeric(c) || c == '-' || c == '_';
        mapped.push(if keep { c } else { '_' });
        i += 1;
        assert(mapped@ =~= m.take(i as int));
    }
    assert(m.take(m.len() as int) =~= m);
    let n = mapped.len();
    let mut a: usize = 0;
    assert(m.subrange(0, n as int) =~= m);
    while a < n && mapped[a] == '_'
        invariant
            mapped@ == m,
            n == m.len(),
            a <= n,
            trim_start_underscores(m) == trim_start_underscores(m.subrange(a as int, n as int)),
        decreases n - a,
    {
        assert(m.subrange(a as int, n as int).drop_first() =~= m.subrange(a + 1, n as int));
        a += 1;
    }
    let mut b: usize = n;
    while b > a && mapped[b - 1] == '_'
        invariant
            mapped@ == m,
            n == m.len(),
            a <= b <= n,
            trim_end_underscores(m.subrange(a as int, n as int)) == trim_end_underscores(m.subrange(a as int, b as int)),
        decreases b - a,
    {
        assert(m.subrange(a as int, b as int).drop_last() =~= m.subrange(a as int, b - 1));
        b -= 1;
    }
    let ghost t = m.subrange(a as int, b as int);
    assert(trim_end_underscores(t) == t);
    if a == b {
        let mut r = String::from_str("tone_");
        let id = i64_to_text(tone_id);
        r.append(id.as_str());
        r
    } else {
        let mut r = String::new();
        let mut k: usize = a;
        while k < b
            invariant
                mapped@ == m,
                a <= k <= b <= n,
                n == m.len(),
                r@ == m.subrange(a as int, k as int),
            decreases b - k,
        {
            push_char(&mut r, mapped[k]);
            k += 1;
            assert(r@ =~= m.subrange(a as int, k as int));
        }
        r
    }
}

/// The library record of a model downloaded from tone3000.
pub fn downloaded_model_info(id: String, name: String, size_bytes: u64, imported_at: String, tone_id: i64, model_id: i64) -> (r: ModelInfo)
    ensures
        r.id == id,
        r.name == name,
        r.size_bytes == size_bytes,
        r.imported_at == imported_at,
        r.tone3000_id matches Some(t) && t@ == dec_int(tone_id as int),
        r.tone3000_model_id matches Some(t) && t@ == dec_int(model_id as int),
{
    ModelInfo {
        id,
        name,
        size_bytes,
        imported_at,
        tone3000_id: Some(i64_to_text(tone_id)),
        tone3000_model_id: Some(i64_to_text(model_id)),
    }
}

/// A model the pedal can run: the nano size, NAM architecture 2.
pub open spec fn is_nano_a2(m: Tone3000Model) -> bool {
    &&& m.size matches Some(sz) && sz@ == "nano"@
    &&& m.architecture_version@ == "2"@
}

/// The models of `ms` that the pedal can run, in their order.
pub open spec fn nano_a2_models(ms: Seq<Tone3000Model>) -> Seq<Tone3000Model>
    decreases ms.len(),
{
    if ms.len() == 0 {
        Seq::empty()
    } else {
        let rest = nano_a2_models(ms.drop_last());
        if is_nano_a2(ms.last()) { rest.push(ms.last()) } else { rest }
    }
}

impl Tone3000Model {
    /// A field-by-field copy.
    pub fn duplicate(&self) -> (r: Tone3000Model)
        ensures
            r == *self,
    {
        Tone3000Model {
            id: self.id,
            tone_id: self.tone_id,
            name: self.name.clone(),
            size: crate::types::copy_opt(&self.size),
            architecture_version: self.architecture_version.clone(),
            model_url: self.model_url.clone(),
        }
    }
}

/// Keeps the models of a tone that the pedal can run: size "nano" and
/// architecture version "2", in their order.
pub fn filter_nano_a2(models: &Vec<Tone3000Model>) -> (r: Vec<Tone3000Model>)
    ensures
        r@ == nano_a2_models(models@),
{
    let nano = String::from_str("nano");
    let two = String::from_str("2");
    let mut kept: Vec<Tone3000Model> = Vec::new();
    let mut i: usize = 0;
    while i < models.len()
        invariant
            nano@ == "nano"@,
            two@ == "2"@,
            i <= models@.len(),
            kept@ == nano_a2_models(models@.take(i as int)),
        decreases models@.len() - i,
    {
        let m = &models[i];
        let size_ok = match &m.size {
            Some(sz) => *sz == nano,
            None => false,
        };
        if size_ok && m.architecture_version == two {
            kept.push(m.duplicate());
        }
        i += 1;
        assert(models@.take(i as int).drop_last() =~= models@.take(i - 1));
    }
    assert(models@.take(models@.len() as int) =~= models@);
    kept
}

} // verus!
