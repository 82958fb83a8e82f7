//! MIME types: the well-known text encodings, classification of offered
//! strings, preference matching and line-ending normalization.
use vstd::prelude::*;
use vstd::utf8::*;

verus! {

/// The well-known text MIME strings, in the order of `Text`'s variants.
pub const ALLOWED_TEXT_MIME_TYPES: [&'static str; 3] = ["text/plain;charset=utf-8", "UTF8_STRING", "text/plain"];

/// Error returned when a payload cannot be produced for a MIME type.
#[derive(Debug, Clone, Copy, PartialEq, Eq, Structural)]
pub struct Error;

impl Error {
    /// Human-readable description of the error.
    pub fn message(&self) -> (r: String)
        ensures
            r@ == "Unsupported mime type"@,
    {
        "Unsupported mime type".to_owned()
    }
}

/// The well-known text encodings.
#[derive(Copy, Clone, PartialEq, Eq, Debug, Structural)]
pub enum Text {
    /// `text/plain;charset=utf-8`, the encoding used by most clients.
    TextPlainUtf8,
    /// `UTF8_STRING`, used by some X11 clients.
    Utf8String,
    /// `text/plain`, the fallback without a charset parameter.
    TextPlain,
}

impl Default for Text {
    fn default() -> (r: Text)
        ensures
            r == Text::TextPlainUtf8,
    {
        Text::TextPlainUtf8
    }
}

/// A MIME type: one of the well-known text encodings, or any other string.
#[derive(Debug)]
pub enum MimeType {
    /// A well-known text MIME type.
    Text(Text),
    /// Any other MIME type.
    Other(String),
}

/// The abstract value of a `MimeType`: its variant, with strings as sequences.
pub enum MimeModel {
    Text(Text),
    Other(Seq<char>),
}

/// Canonical string of a well-known text encoding.
pub open spec fn text_str(t: Text) -> Seq<char> {
    match t {
        Text::TextPlainUtf8 => "text/plain;charset=utf-8"@,
        Text::Utf8String => "UTF8_STRING"@,
        Text::TextPlain => "text/plain"@,
    }
}

/// The well-known text encoding whose canonical string is `s`, if any.
pub open spec fn well_known(s: Seq<char>) -> Option<Text> {
    if s == text_str(Text::TextPlainUtf8) {
        Some(Text::TextPlainUtf8)
    } else if s == text_str(Text::Utf8String) {
        Some(Text::Utf8String)
    } else if s == text_str(Text::TextPlain) {
        Some(Text::TextPlain)
    } else {
        None
    }
}

/// Classification of a MIME string.
pub open spec fn mime_model(s: Seq<char>) -> MimeModel {
    match well_known(s) {
        Some(t) => MimeModel::Text(t),
        None => MimeModel::Other(s),
    }
}

/// Canonical string of a MIME model.
pub open spec fn model_str(m: MimeModel) -> Seq<char> {
    match m {
        MimeModel::Text(t) => text_str(t),
        MimeModel::Other(s) => s,
    }
}

/// A model is canonical when `Other` never holds a well-known string.
pub open spec fn model_wf(m: MimeModel) -> bool {
    match m {
        MimeModel::Text(_) => true,
        MimeModel::Other(s) => well_known(s) is None,
    }
}

impl View for MimeType {
    type V = MimeModel;

    open spec fn view(&self) -> MimeModel {
        match self {
            MimeType::Text(t) => MimeModel::Text(*t),
            MimeType::Other(s) => MimeModel::Other(s@),
        }
    }
}

/// The views of a sequence of strings.
pub open spec fn string_views(ss: Seq<String>) -> Seq<Seq<char>> {
    ss.map_values(|s: String| s@)
}

/// The classification of a string as a `MimeType`.
pub open spec fn classify(v: String) -> MimeType {
    match well_known(v@) {
        Some(t) => MimeType::Text(t),
        None => MimeType::Other(v),
    }
}

/// The first element of `allowed` whose canonical string appears in `offered`.
pub open spec fn first_allowed(offered: Seq<Seq<char>>, allowed: Seq<MimeModel>) -> Option<MimeModel>
    decreases allowed.len(),
{
    if allowed.len() == 0 {
        None
    } else if offered.contains(model_str(allowed[0])) {
        Some(allowed[0])
    } else {
        first_allowed(offered, allowed.drop_first())
    }
}

/// Whether a MIME string denotes text: a well-known text encoding or `text/...`.
pub open spec fn is_text_str(s: Seq<char>) -> bool {
    well_known(s) is Some || (s.len() >= 5 && s.subrange(0, 5) == "text/"@)
}

/// A payload type that can be built from bytes of some MIME types.
pub trait AllowedMimeTypes: Sized {
    /// The MIME types it is built from, most preferred first.
    spec fn allowed_spec() -> Seq<MimeModel>;

    /// The MIME types it is built from, most preferred first.
    fn allowed() -> (r: Vec<MimeType>)
        ensures
            r@.map_values(|m: MimeType| m@) == Self::allowed_spec(),
    ;
}

/// A payload that can be offered as bytes of some MIME types.
pub trait AsMimeTypes {
    /// The MIME types it is offered as.
    spec fn available_spec(&self) -> Seq<MimeModel>;

    /// Its bytes for a MIME type, if it is offered as that type.
    spec fn bytes_spec(&self, mime_type: MimeModel) -> Option<Seq<u8>>;

    /// The MIME types it is offered as.
    fn available(&self) -> (r: Vec<MimeType>)
        ensures
            r@.map_values(|m: MimeType| m@) == self.available_spec(),
    ;

    /// Its bytes for `mime_type`, if it is offered as that type.
    fn as_bytes(&self, mime_type: &MimeType) -> (r: Option<Vec<u8>>)
        ensures
            r is Some <==> self.bytes_spec(mime_type@) is Some,
            r matches Some(b) ==> Some(b@) == self.bytes_spec(mime_type@),
    ;
}

/// The canonical string of a text encoding.
pub fn text_mime_string(t: Text) -> (r: String)
    ensures
        r@ == text_str(t),
{
    match t {
        Text::TextPlainUtf8 => "text/plain;charset=utf-8".to_owned(),
        Text::Utf8String => "UTF8_STRING".to_owned(),
        Text::TextPlain => "text/plain".to_owned(),
    }
}

impl Clone for MimeType {
    fn clone(&self) -> (r: MimeType)
        ensures
            r == *self,
    {
        match self {
            MimeType::Text(t) => MimeType::Text(*t),
            MimeType::Other(s) => MimeType::Other(s.clone()),
        }
    }
}

impl PartialEq for MimeType {
    fn eq(&self, other: &MimeType) -> (r: bool) {
        match (self, other) {
            (MimeType::Text(a), MimeType::Text(b)) => *a == *b,
            (MimeType::Other(a), MimeType::Other(b)) => *a == *b,
            _ => false,
        }
    }
}

impl vstd::std_specs::cmp::PartialEqSpecImpl for MimeType {
    open spec fn obeys_eq_spec() -> bool {
        true
    }

    open spec fn eq_spec(&self, other: &MimeType) -> bool {
        self@ == other@
    }
}

impl Eq for MimeType {}

impl Default for MimeType {
    fn default() -> (r: MimeType)
        ensures
            r == MimeType::Text(Text::TextPlainUtf8),
    {
        MimeType::Text(Text::TextPlainUtf8)
    }
}

impl From<String> for MimeType {
    fn from(value: String) -> (r: MimeType) {
        MimeType::classify(value)
    }
}

impl vstd::std_specs::convert::FromSpecImpl<String> for MimeType {
    open spec fn obeys_from_spec() -> bool {
        true
    }

    open spec fn from_spec(v: String) -> MimeType {
        classify(v)
    }
}

impl MimeType {
    /// Classifies a MIME string: a well-known text encoding, or `Other`.
    pub fn classify(value: String) -> (r: MimeType)
        ensures
            r == classify(value),
            r@ == mime_model(value@),
    {
        let a = text_mime_string(Text::TextPlainUtf8);
        let b = text_mime_string(Text::Utf8String);
        let c = text_mime_string(Text::TextPlain);
        if value == a {
            MimeType::Text(Text::TextPlainUtf8)
        } else if value == b {
            MimeType::Text(Text::Utf8String)
        } else if value == c {
            MimeType::Text(Text::TextPlain)
        } else {
            MimeType::Other(value)
        }
    }

    /// Classifies a MIME string slice.
    pub fn from_str(s: &str) -> (r: MimeType)
        ensures
            r@ == mime_model(s@),
    {
        MimeType::classify(s.to_owned())
    }

    /// The canonical string of this MIME type.
    pub fn to_string(&self) -> (r: String)
        ensures
            r@ == model_str(self@),
    {
        match self {
            MimeType::Text(t) => text_mime_string(*t),
            MimeType::Other(s) => s.clone(),
        }
    }

    /// Whether the canonical string of this MIME type is `s`.
    pub fn matches(&self, s: &String) -> (r: bool)
        ensures
            r == (model_str(self@) == s@),
    {
        let mine = self.to_string();
        mine == *s
    }

    /// Finds the first of `allowed_mime_types` that is also among
    /// `offered_mime_types`; preference goes by `allowed_mime_types`' order.
    pub fn find_allowed(offered_mime_types: &Vec<String>, allowed_mime_types: &Vec<MimeType>) -> (r: Option<MimeType>)
        ensures
            r matches Some(m) ==> Some(m@) == first_allowed(
                string_views(offered_mime_types@),
                allowed_mime_types@.map_values(|m: MimeType| m@),
            ),
            r is None <==> first_allowed(
                string_views(offered_mime_types@),
                allowed_mime_types@.map_values(|m: MimeType| m@),
            ) is None,
    {
        let ghost offered = string_views(offered_mime_types@);
        let ghost allowed = allowed_mime_types@.map_values(|m: MimeType| m@);
        let mut i: usize = 0;
        assert(allowed.subrange(0, allowed.len() as int) =~= allowed);
        while i < allowed_mime_types.len()
            invariant
                0 <= i <= allowed_mime_types@.len(),
                allowed.len() == allowed_mime_types@.len(),
                offered.len() == offered_mime_types@.len(),
                offered == string_views(offered_mime_types@),
                allowed == allowed_mime_types@.map_values(|m: MimeType| m@),
                first_allowed(offered, allowed) == first_allowed(
                    offered,
                    allowed.subrange(i as int, allowed.len() as int),
                ),
            decreases allowed_mime_types@.len() - i,
        {
            let candidate = &allowed_mime_types[i];
            let ghost rest = allowed.subrange(i as int, allowed.len() as int);
            assert(rest[0] == candidate@);
            assert(rest.drop_first() =~= allowed.subrange(i + 1, allowed.len() as int));
            let mut j: usize = 0;
            let mut found = false;
            while j < offered_mime_types.len()
                invariant
                    0 <= j <= offered_mime_types@.len(),
                    offered.len() == offered_mime_types@.len(),
                    offered == string_views(offered_mime_types@),
                    found <==> exists|k: int| 0 <= k < j && offered[k] == model_str(candidate@),
                decreases offered_mime_types@.len() - j,
            {
                assert(offered[j as int] == offered_mime_types@[j as int]@);
                if candidate.matches(&offered_mime_types[j]) {
                    found = true;
                }
                j = j + 1;
            }
            if found {
                assert(offered.contains(model_str(rest[0])));
                return Some(candidate.clone());
            }
            assert(!offered.contains(model_str(rest[0])));
            i = i + 1;
        }
        assert(allowed.subrange(i as int, allowed.len() as int).len() == 0);
        None
    }
}

/// Whether `s` is among `v`.
pub fn contains_string(v: &Vec<String>, s: &String) -> (r: bool)
    ensures
        r == string_views(v@).contains(s@),
{
    let mut i: usize = 0;
    while i < v.len()
        invariant
            0 <= i <= v@.len(),
            forall|k: int| 0 <= k < i ==> v@[k]@ != s@,
        decreases v@.len() - i,
    {
        if v[i] == *s {
            assert(string_views(v@)[i as int] == s@);
            return true;
        }
        i = i + 1;
    }
    proof {
        if string_views(v@).contains(s@) {
            let k = choose|k: int| 0 <= k < string_views(v@).len() && string_views(v@)[k] == s@;
            assert(v@[k]@ == s@);
        }
    }
    false
}

/// A copy of a list of strings.
pub fn copy_strings(v: &Vec<String>) -> (r: Vec<String>)
    ensures
        string_views(r@) == string_views(v@),
{
    let mut out: Vec<String> = Vec::new();
    let mut i: usize = 0;
    while i < v.len()
        invariant
            0 <= i <= v@.len(),
            out@.len() == i,
            string_views(out@) == string_views(v@.subrange(0, i as int)),
        decreases v@.len() - i,
    {
        let item = v[i].clone();
        assert(item@ == v@[i as int]@);
        let ghost prev = out@;
        out.push(item);
        i = i + 1;
        assert forall|k: int| 0 <= k < i implies #[trigger] string_views(out@)[k] == string_views(v@.subrange(0, i as int))[k] by {
            if k < i - 1 {
                assert(out@[k] == prev[k]);
                assert(string_views(prev)[k] == string_views(v@.subrange(0, i - 1))[k]);
            }
        }
        assert(string_views(out@) =~= string_views(v@.subrange(0, i as int)));
    }
    assert(v@.subrange(0, v@.len() as int) =~= v@);
    out
}

/// Whether a MIME string denotes text.
pub fn is_text_mime(s: &String) -> (r: bool)
    ensures
        r == is_text_str(s@),
{
    let m = MimeType::classify(s.clone());
    if let MimeType::Text(_) = m {
        return true;
    }
    let prefix = "text/".to_owned();
    proof {
        reveal_strlit("text/");
    }
    let view = s.as_str();
    if view.unicode_len() < 5 {
        return false;
    }
    let head = view.substring_char(0, 5);
    let head_owned = head.to_owned();
    head_owned == prefix
}

/// Rendering the classification of a string gives the string back.
pub proof fn lemma_mime_round_trip(s: Seq<char>)
    ensures
        model_str(mime_model(s)) == s,
{
}

/// A canonical model is the classification of its own string, so two canonical
/// models are equal exactly when their strings are.
pub proof fn lemma_mime_canonical(m: MimeModel, n: MimeModel)
    requires
        model_wf(m),
        model_wf(n),
    ensures
        mime_model(model_str(m)) == m,
        m == n <==> model_str(m) == model_str(n),
{
    reveal_strlit("text/plain;charset=utf-8");
    reveal_strlit("UTF8_STRING");
    reveal_strlit("text/plain");
    assert(text_str(Text::TextPlainUtf8) != text_str(Text::Utf8String)) by {
        assert(text_str(Text::TextPlainUtf8).len() != text_str(Text::Utf8String).len());
    }
    assert(text_str(Text::TextPlainUtf8) != text_str(Text::TextPlain)) by {
        assert(text_str(Text::TextPlainUtf8).len() != text_str(Text::TextPlain).len());
    }
    assert(text_str(Text::Utf8String) != text_str(Text::TextPlain)) by {
        assert(text_str(Text::Utf8String)[0] != text_str(Text::TextPlain)[0]);
    }
}

/// `s` with every "\r\n" and every lone '\r' replaced by '\n'.
pub open spec fn normalized(s: Seq<char>) -> Seq<char>
    decreases s.len(),
{
    if s.len() == 0 {
        s
    } else if s[0] == '\r' {
        if s.len() >= 2 && s[1] == '\n' {
            seq!['\n'] + normalized(s.subrange(2, s.len() as int))
        } else {
            seq!['\n'] + normalized(s.subrange(1, s.len() as int))
        }
    } else {
        seq![s[0]] + normalized(s.subrange(1, s.len() as int))
    }
}

/// The same normalization on bytes: CR LF and lone CR become LF.
pub open spec fn normalized_bytes(b: Seq<u8>) -> Seq<u8>
    decreases b.len(),
{
    if b.len() == 0 {
        b
    } else if b[0] == 13u8 {
        if b.len() >= 2 && b[1] == 10u8 {
            seq![10u8] + normalized_bytes(b.subrange(2, b.len() as int))
        } else {
            seq![10u8] + normalized_bytes(b.subrange(1, b.len() as int))
        }
    } else {
        seq![b[0]] + normalized_bytes(b.subrange(1, b.len() as int))
    }
}

/// Whether `s` holds no carriage return.
pub open spec fn has_no_cr(s: Seq<char>) -> bool {
    forall|i: int| 0 <= i < s.len() ==> s[i] != '\r'
}

proof fn lemma_normalized_has_no_cr(s: Seq<char>)
    ensures
        has_no_cr(normalized(s)),
    decreases s.len(),
{
    if s.len() == 0 {
    } else if s[0] == '\r' && s.len() >= 2 && s[1] == '\n' {
        lemma_normalized_has_no_cr(s.subrange(2, s.len() as int));
    } else {
        lemma_normalized_has_no_cr(s.subrange(1, s.len() as int));
    }
    let n = normalized(s);
    assert forall|i: int| 0 <= i < n.len() implies n[i] != '\r' by {
        if s.len() > 0 && i > 0 {
            if s[0] == '\r' && s.len() >= 2 && s[1] == '\n' {
                assert(n[i] == normalized(s.subrange(2, s.len() as int))[i - 1]);
            } else {
                assert(n[i] == normalized(s.subrange(1, s.len() as int))[i - 1]);
            }
        }
    }
}

proof fn lemma_normalized_fixed(s: Seq<char>)
    requires
        has_no_cr(s),
    ensures
        normalized(s) == s,
    decreases s.len(),
{
    if s.len() > 0 {
        let rest = s.subrange(1, s.len() as int);
        assert(s[0] != '\r');
        assert(has_no_cr(rest)) by {
            assert forall|i: int| 0 <= i < rest.len() implies rest[i] != '\r' by {
                assert(rest[i] == s[i + 1]);
            }
        }
        lemma_normalized_fixed(rest);
        assert(seq![s[0]] + rest =~= s);
    }
}

/// Normalizing line endings twice gives the same text as normalizing once.
pub proof fn lemma_normalize_idempotent(s: Seq<char>)
    ensures
        normalized(normalized(s)) == normalized(s),
{
    lemma_normalized_has_no_cr(s);
    lemma_normalized_fixed(normalized(s));
}

proof fn lemma_encode_append(a: Seq<char>, b: Seq<char>)
    ensures
        encode_utf8(a + b) == encode_utf8(a) + encode_utf8(b),
    decreases a.len(),
{
    if a.len() == 0 {
        assert(a + b =~= b);
        assert(encode_utf8(a) =~= Seq::<u8>::empty());
        assert(encode_utf8(a) + encode_utf8(b) =~= encode_utf8(b));
    } else {
        assert((a + b)[0] == a[0]);
        assert((a + b).drop_first() =~= a.drop_first() + b);
        lemma_encode_append(a.drop_first(), b);
        assert(encode_scalar(a[0] as u32) + (encode_utf8(a.drop_first()) + encode_utf8(b))
            =~= (encode_scalar(a[0] as u32) + encode_utf8(a.drop_first())) + encode_utf8(b));
    }
}

proof fn lemma_encode_single(c: char)
    ensures
        encode_utf8(seq![c]) == encode_scalar(c as u32),
{
    assert(seq![c].drop_first() =~= Seq::<char>::empty());
    assert(encode_utf8(Seq::<char>::empty()) =~= Seq::<u8>::empty());
    assert(encode_scalar(c as u32) + Seq::<u8>::empty() =~= encode_scalar(c as u32));
}

proof fn lemma_ascii_byte(u: u32)
    by (bit_vector)
    requires
        u <= 0x7f,
    ensures
        leading_byte_width_1(u) == u as u8,
        (u as u8 == 13u8) == (u == 13u32),
        (u as u8 == 10u8) == (u == 10u32),
{
}

proof fn lemma_high_bytes(u: u32)
    by (bit_vector)
    ensures
        leading_byte_width_2(u) >= 0x80u8,
        leading_byte_width_3(u) >= 0x80u8,
        leading_byte_width_4(u) >= 0x80u8,
        last_continuation_byte(u) >= 0x80u8,
        second_last_continuation_byte(u) >= 0x80u8,
        third_last_continuation_byte(u) >= 0x80u8,
{
}

/// The bytes of a char other than CR hold no CR, and start with LF only for LF.
proof fn lemma_scalar_bytes(c: char)
    ensures
        encode_scalar(c as u32).len() > 0,
        c != '\r' ==> forall|i: int| 0 <= i < encode_scalar(c as u32).len() ==> #[trigger] encode_scalar(c as u32)[i] != 13u8,
        c != '\n' ==> encode_scalar(c as u32)[0] != 10u8,
        c == '\r' ==> encode_scalar(c as u32) == seq![13u8],
        c == '\n' ==> encode_scalar(c as u32) == seq![10u8],
{
    let u = c as u32;
    lemma_high_bytes(u);
    if u <= 0x7f {
        lemma_ascii_byte(u);
        assert(('\r' as u32) == 13u32);
        assert(('\n' as u32) == 10u32);
        vstd::utf8::char_u32_cast(c, u);
        assert(c == '\r' <==> u == 13u32);
        assert(c == '\n' <==> u == 10u32);
    }
}

proof fn lemma_no_cr_prefix(x: Seq<u8>, y: Seq<u8>)
    requires
        forall|i: int| 0 <= i < x.len() ==> x[i] != 13u8,
    ensures
        normalized_bytes(x + y) == x + normalized_bytes(y),
    decreases x.len(),
{
    if x.len() == 0 {
        assert(x + y =~= y);
        assert(x + normalized_bytes(y) =~= normalized_bytes(y));
    } else {
        let xy = x + y;
        assert(xy[0] == x[0]);
        let rest = x.subrange(1, x.len() as int);
        assert(xy.subrange(1, xy.len() as int) =~= rest + y);
        lemma_no_cr_prefix(rest, y);
        assert(seq![x[0]] + (rest + normalized_bytes(y)) =~= x + normalized_bytes(y));
    }
}

/// Normalizing the UTF-8 bytes of a text is encoding the normalized text.
proof fn lemma_normalized_encoding(cs: Seq<char>)
    ensures
        normalized_bytes(encode_utf8(cs)) == encode_utf8(normalized(cs)),
    decreases cs.len(),
{
    if cs.len() == 0 {
        assert(encode_utf8(cs) =~= Seq::<u8>::empty());
    } else {
        let c = cs[0];
        let rest1 = cs.subrange(1, cs.len() as int);
        assert(cs.drop_first() =~= rest1);
        let e = encode_utf8(cs);
        let e1 = encode_utf8(rest1);
        assert(e == encode_scalar(c as u32) + e1);
        lemma_scalar_bytes(c);
        if c == '\r' {
            lemma_encode_single('\n');
            lemma_scalar_bytes('\n');
            if cs.len() >= 2 && cs[1] == '\n' {
                let rest2 = cs.subrange(2, cs.len() as int);
                assert(rest1.drop_first() =~= rest2);
                assert(rest1[0] == '\n');
                let e2 = encode_utf8(rest2);
                assert(e1 == encode_scalar('\n' as u32) + e2);
                assert(e =~= seq![13u8, 10u8] + e2);
                assert(e.subrange(2, e.len() as int) =~= e2);
                lemma_normalized_encoding(rest2);
                lemma_encode_append(seq!['\n'], normalized(rest2));
            } else {
                assert(e =~= seq![13u8] + e1);
                assert(e.subrange(1, e.len() as int) =~= e1);
                if cs.len() >= 2 {
                    assert(rest1[0] == cs[1]);
                    assert(rest1.drop_first() =~= cs.subrange(2, cs.len() as int));
                    lemma_scalar_bytes(cs[1]);
                    assert(e1 == encode_scalar(cs[1] as u32) + encode_utf8(rest1.drop_first()));
                    assert(e[1] == e1[0]);
                } else {
                    assert(rest1.len() == 0);
                    assert(e1 =~= Seq::<u8>::empty());
                }
                lemma_normalized_encoding(rest1);
                lemma_encode_append(seq!['\n'], normalized(rest1));
            }
        } else {
            lemma_no_cr_prefix(encode_scalar(c as u32), e1);
            lemma_normalized_encoding(rest1);
            lemma_encode_single(c);
            lemma_encode_append(seq![c], normalized(rest1));
        }
    }
}

/// Relies on String::from_utf8: it succeeds exactly on valid UTF-8 and then
/// holds the decoded characters.
#[verifier::external_body]
fn string_from_utf8(bytes: Vec<u8>) -> (r: Option<String>)
    ensures
        r is Some <==> valid_utf8(bytes@),
        r matches Some(s) ==> s@ == decode_utf8(bytes@),
{
    String::from_utf8(bytes).ok()
}

/// Replaces every CR LF and every lone CR in `data` by LF.
pub fn normalize_lf_bytes(data: &[u8]) -> (r: Vec<u8>)
    ensures
        r@ == normalized_bytes(data@),
{
    let mut out: Vec<u8> = Vec::new();
    let mut i: usize = 0;
    let n = data.len();
    assert(data@.subrange(0, n as int) =~= data@);
    while i < n
        invariant
            n == data@.len(),
            0 <= i <= n,
            normalized_bytes(data@) == out@ + normalized_bytes(data@.subrange(i as int, n as int)),
        decreases n - i,
    {
        let ghost rest = data@.subrange(i as int, n as int);
        assert(rest[0] == data@[i as int]);
        if data[i] == 13u8 {
            out.push(10u8);
            if i + 1 < n && data[i + 1] == 10u8 {
                assert(rest[1] == data@[i + 1]);
                assert(rest.subrange(2, rest.len() as int) =~= data@.subrange(i + 2, n as int));
                i = i + 2;
            } else {
                assert(rest.subrange(1, rest.len() as int) =~= data@.subrange(i + 1, n as int));
                i = i + 1;
            }
        } else {
            out.push(data[i]);
            assert(rest.subrange(1, rest.len() as int) =~= data@.subrange(i + 1, n as int));
            i = i + 1;
        }
    }
    assert(data@.subrange(n as int, n as int).len() == 0);
    assert(out@ + normalized_bytes(data@.subrange(n as int, n as int)) =~= out@);
    out
}

/// Normalizes CR and CR LF into LF.
///
/// Text MIME payloads use CR LF by convention; applications expect LF.
pub fn normalize_to_lf(text: String) -> (r: String)
    ensures
        r@ == normalized(text@),
{
    let bytes = normalize_lf_bytes(text.as_str().as_bytes());
    proof {
        lemma_normalized_encoding(text@);
        vstd::utf8::encode_utf8_valid_utf8(normalized(text@));
        vstd::utf8::encode_utf8_decode_utf8(normalized(text@));
    }
    match string_from_utf8(bytes) {
        Some(s) => s,
        None => {
            assert(false);
            String::new()
        },
    }
}

} // verus!
