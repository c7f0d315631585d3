//! Redaction of attribute values before a record leaves the process.

use vstd::prelude::*;
use crate::otel::{attrs_view, AttrModel, AttrValue, KeyValue};
use crate::patterns::{regex_is_match, regex_matches, regex_valid};
use crate::text::{
    chars_of, has_prefix, push_range, push_repeated, push_str_chars, repeat_char, starts_with_str,
    str_eq, string_of_range, string_views,
};

verus! {

/// The character that replaces redacted characters.
pub const MASK_CHAR: char = '*';

/// `v` with all but the first `p` and last `s` characters replaced by the mask
/// character; entirely masked when it is not longer than `p + s`.
pub open spec fn masked(v: Seq<char>, p: nat, s: nat) -> Seq<char> {
    if v.len() <= p + s {
        repeat_char(MASK_CHAR, v.len())
    } else {
        v.take(p as int) + repeat_char(MASK_CHAR, (v.len() - p - s) as nat) + v.skip(
            v.len() - s,
        )
    }
}

/// Masking keeps the length of a value; a value not longer than the kept
/// prefix and suffix together comes back as mask characters only; a longer
/// one keeps its first `p` and last `s` characters.
pub proof fn lemma_mask_string_shape(v: Seq<char>, p: nat, s: nat)
    ensures
        masked(v, p, s).len() == v.len(),
        v.len() <= p + s ==> forall|i: int|
            0 <= i < v.len() ==> #[trigger] masked(v, p, s)[i] == MASK_CHAR,
        v.len() > p + s ==> masked(v, p, s).take(p as int) == v.take(p as int),
        v.len() > p + s ==> masked(v, p, s).skip(v.len() - s) == v.skip(v.len() - s),
        v.len() > p + s ==> forall|i: int|
            p <= i < v.len() - s ==> #[trigger] masked(v, p, s)[i] == MASK_CHAR,
{
    if v.len() > p + s {
        let m = masked(v, p, s);
        assert(m.take(p as int) =~= v.take(p as int));
        assert(m.skip(v.len() - s) =~= v.skip(v.len() - s));
    }
}

/// Masks a single string value, keeping `keep_prefix` leading and
/// `keep_suffix` trailing characters.
pub fn mask_string(value: &str, keep_prefix: usize, keep_suffix: usize) -> (r: String)
    ensures
        r@ == masked(value@, keep_prefix as nat, keep_suffix as nat),
{
    let v = chars_of(value);
    let len = v.len();
    if len <= keep_prefix || len - keep_prefix <= keep_suffix {
        let mut r = String::new();
        push_repeated(&mut r, MASK_CHAR, len);
        proof {
            assert(r@ =~= masked(value@, keep_prefix as nat, keep_suffix as nat));
        }
        return r;
    }
    let mut r = string_of_range(&v, 0, keep_prefix);
    push_repeated(&mut r, MASK_CHAR, len - keep_prefix - keep_suffix);
    push_range(&mut r, &v, len - keep_suffix, len);
    proof {
        assert(r@ =~= masked(value@, keep_prefix as nat, keep_suffix as nat));
    }
    r
}

/// Kinds of sensitive values.
#[derive(PartialEq, Eq, Structural, Clone, Copy, Debug)]
pub enum SensitiveDataType {
    Phone,
    IdCard,
    Email,
    BankCard,
    Password,
    Token,
    IpAddress,
    Unknown,
}

/// Whether the fixed regular expression `p` matches `v`.
pub open spec fn kind_matches(p: Seq<char>, v: Seq<char>) -> bool {
    regex_valid(p) && regex_matches(p, v)
}

/// A whole value that is a mobile phone number.
pub open spec fn phone_pattern() -> Seq<char> {
    "^1[3-9]\\d{9}$"@
}

/// A whole value that is an identity card number: 17 digits and a digit or `X`.
pub open spec fn id_card_pattern() -> Seq<char> {
    "^\\d{17}[\\dXx]$"@
}

/// A whole value that is an e-mail address.
pub open spec fn email_pattern() -> Seq<char> {
    "^[a-zA-Z0-9._%+-]+@[a-zA-Z0-9.-]+\\.[a-zA-Z]{2,}$"@
}

/// A whole value that is a bank card number: 13 to 19 digits.
pub open spec fn bank_card_pattern() -> Seq<char> {
    "^\\d{13,19}$"@
}

/// A whole value that is a token or key, by its usual prefix.
pub open spec fn token_pattern() -> Seq<char> {
    "^(Bearer\\s+|sk-|api_key|token)[\\w\\-._]+$"@
}

/// A whole value that is a dotted IPv4 address.
pub open spec fn ip_pattern() -> Seq<char> {
    "^\\d{1,3}\\.\\d{1,3}\\.\\d{1,3}\\.\\d{1,3}$"@
}

/// The kind of a value, by the first pattern that matches in the order
/// phone, identity card, e-mail, bank card, token, IP address.
pub open spec fn sensitive_type_of(v: Seq<char>) -> SensitiveDataType {
    if kind_matches(phone_pattern(), v) {
        SensitiveDataType::Phone
    } else if kind_matches(id_card_pattern(), v) {
        SensitiveDataType::IdCard
    } else if kind_matches(email_pattern(), v) {
        SensitiveDataType::Email
    } else if kind_matches(bank_card_pattern(), v) {
        SensitiveDataType::BankCard
    } else if kind_matches(token_pattern(), v) {
        SensitiveDataType::Token
    } else if kind_matches(ip_pattern(), v) {
        SensitiveDataType::IpAddress
    } else {
        SensitiveDataType::Unknown
    }
}

fn kind_match(pattern: &str, value: &str) -> (r: bool)
    ensures
        r == kind_matches(pattern@, value@),
{
    match regex_is_match(pattern, value) {
        Some(m) => m,
        None => false,
    }
}

/// Classifies the sensitive kind of a value.
pub fn detect_sensitive_type(value: &str) -> (r: SensitiveDataType)
    ensures
        r == sensitive_type_of(value@),
{
    if kind_match("^1[3-9]\\d{9}$", value) {
        return SensitiveDataType::Phone;
    }
    if kind_match("^\\d{17}[\\dXx]$", value) {
        return SensitiveDataType::IdCard;
    }
    if kind_match("^[a-zA-Z0-9._%+-]+@[a-zA-Z0-9.-]+\\.[a-zA-Z]{2,}$", value) {
        return SensitiveDataType::Email;
    }
    if kind_match("^\\d{13,19}$", value) {
        return SensitiveDataType::BankCard;
    }
    if kind_match("^(Bearer\\s+|sk-|api_key|token)[\\w\\-._]+$", value) {
        return SensitiveDataType::Token;
    }
    if kind_match("^\\d{1,3}\\.\\d{1,3}\\.\\d{1,3}\\.\\d{1,3}$", value) {
        return SensitiveDataType::IpAddress;
    }
    SensitiveDataType::Unknown
}

/// What to redact and how much of each value to keep.
#[derive(Debug, Clone)]
pub struct MaskingConfig {
    pub enabled: bool,
    pub mask_request_headers: Vec<String>,
    pub mask_response_headers: Vec<String>,
    pub mask_request_body: bool,
    pub mask_response_body: bool,
    pub keep_prefix_length: usize,
    pub keep_suffix_length: usize,
}

impl Default for MaskingConfig {
    /// Masking on, credential headers and both bodies masked, three
    /// characters kept at each end.
    fn default() -> (r: MaskingConfig)
        ensures
            r.enabled,
            string_views(r.mask_request_headers@) == seq![
                "authorization"@,
                "cookie"@,
                "x-api-key"@,
                "x-auth-token"@,
                "proxy-authorization"@,
            ],
            string_views(r.mask_response_headers@) == seq!["set-cookie"@],
            r.mask_request_body,
            r.mask_response_body,
            r.keep_prefix_length == 3,
            r.keep_suffix_length == 3,
    {
        let mut req: Vec<String> = Vec::new();
        req.push(String::from_str("authorization"));
        req.push(String::from_str("cookie"));
        req.push(String::from_str("x-api-key"));
        req.push(String::from_str("x-auth-token"));
        req.push(String::from_str("proxy-authorization"));
        let mut resp: Vec<String> = Vec::new();
        resp.push(String::from_str("set-cookie"));
        proof {
            assert(string_views(req@) =~= seq![
                "authorization"@,
                "cookie"@,
                "x-api-key"@,
                "x-auth-token"@,
                "proxy-authorization"@,
            ]);
            assert(string_views(resp@) =~= seq!["set-cookie"@]);
        }
        MaskingConfig {
            enabled: true,
            mask_request_headers: req,
            mask_response_headers: resp,
            mask_request_body: true,
            mask_response_body: true,
            keep_prefix_length: 3,
            keep_suffix_length: 3,
        }
    }
}

/// Field names whose string values are masked in bodies.
pub open spec fn sensitive_fields() -> Seq<Seq<char>> {
    seq![
        "phone"@, "mobile"@, "tel"@, "telephone"@, "cellphone"@,
        "idCard"@, "id_card"@, "identity"@, "identityCard"@,
        "email"@, "mail"@, "emailAddress"@,
        "password"@, "pwd"@, "passwd"@, "pass"@,
        "bankCard"@, "bank_card"@, "card_no"@, "cardNo"@, "cardNumber"@,
        "token"@, "accessToken"@, "access_token"@, "refreshToken"@,
        "apiKey"@, "api_key"@, "secret"@, "secretKey"@,
    ]
}

fn sensitive_field_list() -> (r: Vec<String>)
    ensures
        string_views(r@) == sensitive_fields(),
{
    let mut r: Vec<String> = Vec::new();
    r.push(String::from_str("phone"));
    r.push(String::from_str("mobile"));
    r.push(String::from_str("tel"));
    r.push(String::from_str("telephone"));
    r.push(String::from_str("cellphone"));
    r.push(String::from_str("idCard"));
    r.push(String::from_str("id_card"));
    r.push(String::from_str("identity"));
    r.push(String::from_str("identityCard"));
    r.push(String::from_str("email"));
    r.push(String::from_str("mail"));
    r.push(String::from_str("emailAddress"));
    r.push(String::from_str("password"));
    r.push(String::from_str("pwd"));
    r.push(String::from_str("passwd"));
    r.push(String::from_str("pass"));
    r.push(String::from_str("bankCard"));
    r.push(String::from_str("bank_card"));
    r.push(String::from_str("card_no"));
    r.push(String::from_str("cardNo"));
    r.push(String::from_str("cardNumber"));
    r.push(String::from_str("token"));
    r.push(String::from_str("accessToken"));
    r.push(String::from_str("access_token"));
    r.push(String::from_str("refreshToken"));
    r.push(String::from_str("apiKey"));
    r.push(String::from_str("api_key"));
    r.push(String::from_str("secret"));
    r.push(String::from_str("secretKey"));
    proof {
        assert(string_views(r@) =~= sensitive_fields());
    }
    r
}

/// The pattern of a `"field": "value"` pair, the value captured.
pub open spec fn field_pattern(field: Seq<char>) -> Seq<char> {
    seq!['"'] + field + "\"\\s*:\\s*\"([^\"]+)\""@
}

/// The replacement of a matched pair: the field and its masked value.
pub open spec fn masked_pair(field: Seq<char>, value: Seq<char>, p: nat, s: nat) -> Seq<char> {
    seq!['"'] + field + "\": \""@ + masked(value, p, s) + seq!['"']
}

/// `text` with every non-overlapping match of the valid regular expression
/// `pattern` replaced by the masked pair for `field` and the match's first
/// capture, keeping `p` and `s` characters.
pub uninterp spec fn pairs_replaced(text: Seq<char>, pattern: Seq<char>, field: Seq<char>, p: usize, s: usize) -> Seq<char>;

/// Builds the masked pair for a field and its value.
pub fn masked_field_pair(field: &str, value: &str, keep_prefix: usize, keep_suffix: usize) -> (r:
    String)
    ensures
        r@ == masked_pair(field@, value@, keep_prefix as nat, keep_suffix as nat),
{
    let mut r = String::new();
    r.push('"');
    push_str_chars(&mut r, field);
    push_str_chars(&mut r, "\": \"");
    let m = mask_string(value, keep_prefix, keep_suffix);
    push_str_chars(&mut r, m.as_str());
    r.push('"');
    proof {
        assert(r@ =~= masked_pair(field@, value@, keep_prefix as nat, keep_suffix as nat));
    }
    r
}

/// Relies on regex's `Regex::replace_all`, after `Regex::new` on the pattern:
/// each match is replaced by what the closure returns for it, a call of
/// `masked_field_pair` on the first capture group (empty when the group did
/// not take part); text without a match, or under a pattern that does not
/// compile, comes back as it was.
#[verifier::external_body]
fn replace_pairs(text: &str, pattern: &str, field: &str, keep_prefix: usize, keep_suffix: usize) -> (r:
    String)
    ensures
        regex_valid(pattern@) ==> r@ == pairs_replaced(text@, pattern@, field@, keep_prefix, keep_suffix),
        !regex_valid(pattern@) ==> r@ == text@,
{
    match regex::Regex::new(pattern) {
        Ok(re) => re.replace_all(
            text,
            |caps: &regex::Captures| masked_field_pair(
                field,
                caps.get(1).map_or("", |m| m.as_str()),
                keep_prefix,
                keep_suffix,
            ),
        ).to_string(),
        Err(_) => text.to_string(),
    }
}

/// One field's pairs masked in `text`.
pub open spec fn field_masked(text: Seq<char>, field: Seq<char>, p: usize, s: usize) -> Seq<char> {
    if regex_valid(field_pattern(field)) {
        pairs_replaced(text, field_pattern(field), field, p, s)
    } else {
        text
    }
}

/// `text` with the pairs of each field of `fields` masked in turn.
pub open spec fn fields_masked(text: Seq<char>, fields: Seq<Seq<char>>, p: usize, s: usize) -> Seq<char>
    decreases fields.len(),
{
    if fields.len() == 0 {
        text
    } else {
        field_masked(fields_masked(text, fields.drop_last(), p, s), fields.last(), p, s)
    }
}

/// Masks the values of sensitive fields in a JSON body, by pattern and without
/// parsing it.
pub fn mask_json_body(json_str: &str, config: &MaskingConfig) -> (r: String)
    ensures
        r@ == fields_masked(
            json_str@,
            sensitive_fields(),
            config.keep_prefix_length,
            config.keep_suffix_length,
        ),
{
    let fields = sensitive_field_list();
    let mut result = String::from_str(json_str);
    let mut i: usize = 0;
    while i < fields.len()
        invariant
            i <= fields@.len(),
            string_views(fields@) == sensitive_fields(),
            result@ == fields_masked(
                json_str@,
                sensitive_fields().take(i as int),
                config.keep_prefix_length,
                config.keep_suffix_length,
            ),
        decreases fields@.len() - i,
    {
        let field = fields[i].as_str();
        let mut pattern = String::new();
        pattern.push('"');
        push_str_chars(&mut pattern, field);
        push_str_chars(&mut pattern, "\"\\s*:\\s*\"([^\"]+)\"");
        proof {
            assert(pattern@ =~= field_pattern(field@));
            assert(sensitive_fields().take(i + 1).drop_last() =~= sensitive_fields().take(i as int));
            assert(sensitive_fields().take(i + 1).last() == field@);
        }
        result = replace_pairs(
            result.as_str(),
            pattern.as_str(),
            field,
            config.keep_prefix_length,
            config.keep_suffix_length,
        );
        i = i + 1;
    }
    proof {
        assert(sensitive_fields().take(fields@.len() as int) =~= sensitive_fields());
    }
    result
}

/// Equality of characters up to ASCII case.
pub open spec fn eq_ascii_ci(a: char, b: char) -> bool {
    ||| a == b
    ||| ('A' <= a <= 'Z' && b as u32 == a as u32 + 32)
    ||| ('A' <= b <= 'Z' && a as u32 == b as u32 + 32)
}

/// Equality of strings up to ASCII case.
pub open spec fn eq_ignore_ascii_case(a: Seq<char>, b: Seq<char>) -> bool {
    a.len() == b.len() && forall|i: int| 0 <= i < a.len() ==> eq_ascii_ci(#[trigger] a[i], b[i])
}

fn chars_eq_ignore_ascii_case(a: &Vec<char>, b: &str) -> (r: bool)
    ensures
        r == eq_ignore_ascii_case(a@, b@),
{
    let bv = chars_of(b);
    if a.len() != bv.len() {
        return false;
    }
    let mut i: usize = 0;
    while i < a.len()
        invariant
            i <= a@.len() == bv@.len(),
            bv@ == b@,
            forall|j: int| 0 <= j < i ==> eq_ascii_ci(#[trigger] a@[j], bv@[j]),
        decreases a@.len() - i,
    {
        let x = a[i];
        let y = bv[i];
        let same = x == y || ('A' <= x && x <= 'Z' && y as u32 == x as u32 + 32) || ('A' <= y && y
            <= 'Z' && x as u32 == y as u32 + 32);
        if !same {
            return false;
        }
        i = i + 1;
    }
    true
}

/// Whether a header attribute key names one of `names`, up to ASCII case.
pub open spec fn header_listed(key: Seq<char>, prefix: Seq<char>, names: Seq<Seq<char>>) -> bool {
    has_prefix(key, prefix) && exists|i: int|
        0 <= i < names.len() && eq_ignore_ascii_case(key.skip(prefix.len() as int), #[trigger] names[i])
}

/// Whether an attribute is redacted under a masking configuration.
pub open spec fn attr_masked(key: Seq<char>, config: MaskingConfig) -> bool {
    ||| header_listed(key, "http.request.header."@, string_views(config.mask_request_headers@))
    ||| header_listed(key, "http.response.header."@, string_views(config.mask_response_headers@))
    ||| (key == "http.request.body"@ && config.mask_request_body)
    ||| (key == "http.response.body"@ && config.mask_response_body)
}

/// The redacted form of an attribute: string values of listed keys are masked,
/// bodies field by field and other values whole.
pub open spec fn masked_attr(a: (Seq<char>, AttrModel), config: MaskingConfig) -> (Seq<char>, AttrModel) {
    if config.enabled && attr_masked(a.0, config) {
        match a.1 {
            AttrModel::Str(v) => (
                a.0,
                AttrModel::Str(
                    if a.0 == "http.request.body"@ || a.0 == "http.response.body"@ {
                        fields_masked(
                            v,
                            sensitive_fields(),
                            config.keep_prefix_length,
                            config.keep_suffix_length,
                        )
                    } else {
                        masked(v, config.keep_prefix_length as nat, config.keep_suffix_length as nat)
                    },
                ),
            ),
            _ => a,
        }
    } else {
        a
    }
}

fn header_key_listed(key: &str, prefix: &str, names: &Vec<String>) -> (r: bool)
    ensures
        r == header_listed(key@, prefix@, string_views(names@)),
{
    if !starts_with_str(key, prefix) {
        return false;
    }
    let kc = chars_of(key);
    let pc = chars_of(prefix);
    let name = string_of_range(&kc, pc.len(), kc.len());
    let nc = chars_of(name.as_str());
    proof {
        assert(nc@ =~= key@.skip(prefix@.len() as int));
    }
    let ghost ns = string_views(names@);
    let mut i: usize = 0;
    while i < names.len()
        invariant
            i <= names@.len(),
            ns == string_views(names@),
            nc@ == key@.skip(prefix@.len() as int),
            has_prefix(key@, prefix@),
            forall|j: int| 0 <= j < i ==> !eq_ignore_ascii_case(nc@, #[trigger] ns[j]),
        decreases names@.len() - i,
    {
        proof {
            assert(ns[i as int] == names@[i as int]@);
        }
        if chars_eq_ignore_ascii_case(&nc, names[i].as_str()) {
            proof {
                assert(eq_ignore_ascii_case(key@.skip(prefix@.len() as int), ns[i as int]));
            }
            return true;
        }
        i = i + 1;
    }
    false
}

fn should_mask(key: &str, config: &MaskingConfig) -> (r: bool)
    ensures
        r == attr_masked(key@, *config),
{
    header_key_listed(key, "http.request.header.", &config.mask_request_headers)
        || header_key_listed(key, "http.response.header.", &config.mask_response_headers)
        || (str_eq(key, "http.request.body") && config.mask_request_body)
        || (str_eq(key, "http.response.body") && config.mask_response_body)
}

/// Redacts the attributes of a record under a masking configuration.
pub fn mask_span_attributes(attributes: &mut Vec<KeyValue>, config: &MaskingConfig)
    ensures
        attrs_view(final(attributes)@) == attrs_view(old(attributes)@).map_values(
            |a: (Seq<char>, AttrModel)| masked_attr(a, *config),
        ),
{
    let ghost before = attrs_view(attributes@);
    if !config.enabled {
        proof {
            assert(attrs_view(attributes@) =~= before.map_values(
                |a: (Seq<char>, AttrModel)| masked_attr(a, *config),
            ));
        }
        return;
    }
    let n = attributes.len();
    let mut i: usize = 0;
    while i < n
        invariant
            i <= n == attributes@.len(),
            before == attrs_view(old(attributes)@),
            before.len() == n,
            config.enabled,
            forall|j: int|
                0 <= j < i ==> #[trigger] attrs_view(attributes@)[j] == masked_attr(before[j], *config),
            forall|j: int| i <= j < n ==> #[trigger] attrs_view(attributes@)[j] == before[j],
        decreases n - i,
    {
        let ghost prev = attributes@;
        let key = attributes[i].key.clone();
        if should_mask(key.as_str(), config) {
            let replacement: Option<String> = match &attributes[i].value {
                AttrValue::Str(v) => {
                    if str_eq(key.as_str(), "http.request.body") || str_eq(
                        key.as_str(),
                        "http.response.body",
                    ) {
                        Some(mask_json_body(v.as_str(), config))
                    } else {
                        Some(mask_string(v.as_str(), config.keep_prefix_length, config.keep_suffix_length))
                    }
                },
                AttrValue::Int(_) => None,
            };
            match replacement {
                Some(m) => {
                    attributes.set(i, KeyValue { key, value: AttrValue::Str(m) });
                },
                None => {},
            }
        }
        proof {
            assert forall|j: int| 0 <= j < n && j != i implies #[trigger] attributes@[j] == prev[j] by {}
            assert(attrs_view(prev)[i as int] == prev[i as int]@);
            assert(attrs_view(attributes@)[i as int] == attributes@[i as int]@);
            assert(before[i as int] == prev[i as int]@);
            assert(attrs_view(attributes@)[i as int] == masked_attr(before[i as int], *config));
        }
        i = i + 1;
        proof {
            assert forall|j: int| 0 <= j < i implies #[trigger] attrs_view(attributes@)[j] == masked_attr(
                before[j],
                *config,
            ) by {
                if j < i - 1 {
                    assert(attrs_view(attributes@)[j] == attributes@[j]@);
                    assert(attrs_view(prev)[j] == prev[j]@);
                }
            }
            assert forall|j: int| i <= j < n implies #[trigger] attrs_view(attributes@)[j] == before[j] by {
                assert(attrs_view(attributes@)[j] == attributes@[j]@);
                assert(attrs_view(prev)[j] == prev[j]@);
            }
        }
    }
    proof {
        assert(attrs_view(attributes@) =~= before.map_values(
            |a: (Seq<char>, AttrModel)| masked_attr(a, *config),
        ));
    }
}

} // verus!
