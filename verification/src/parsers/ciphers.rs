//! Building the JavaScript that deciphers stream addresses from the player script.
use vstd::prelude::*;
use crate::bindings::{
    capture, capture_group, captures, regex_captures, url_decode, percent_decoded,
};
use crate::text::{
    cat, cat3, i32_from_str, parse_int_in, replace, replace_all, strings_view, trim, trimmed,
};

verus! {

pub open spec fn sig_timestamp_pattern() -> Seq<char> {
    r"signatureTimestamp:([^,]*),"@
}

/// The text after `signatureTimestamp:` in the player script, up to the next comma.
pub open spec fn sig_timestamp_text(player_res: Seq<char>) -> Seq<char> {
    match capture_group(sig_timestamp_pattern(), player_res, 1) {
        Some(t) => t,
        None => Seq::empty(),
    }
}

/// The signature timestamp in the player script, as `i32::from_str` reads it.
pub fn extract_sig_timestamp(player_res: &str) -> (r: Result<i32, std::num::ParseIntError>)
    ensures
        r matches Ok(v) ==> parse_int_in(
            sig_timestamp_text(player_res@),
            i32::MIN as int,
            i32::MAX as int,
        ) == Some(v as int),
        r is Err ==> parse_int_in(
            sig_timestamp_text(player_res@),
            i32::MIN as int,
            i32::MAX as int,
        ) is None,
{
    let timestamp = match capture(r"signatureTimestamp:([^,]*),", player_res, 1) {
        Some(t) => t,
        None => String::new(),
    };
    i32_from_str(timestamp.as_str())
}

pub enum ExtractSigJsCodeError {
    NoObjectNameFound,
    NoFunctionsOrCallsFound,
}

impl ExtractSigJsCodeError {
    pub open spec fn spec_message(&self) -> Seq<char> {
        match self {
            ExtractSigJsCodeError::NoObjectNameFound => "No object name found when extracting sig js code"@,
            ExtractSigJsCodeError::NoFunctionsOrCallsFound => "No functions or calls found when extracting sig js code"@,
        }
    }

    /// The text that `Display` writes for this error.
    pub fn message(&self) -> (r: String)
        ensures
            r@ == self.spec_message(),
    {
        match self {
            ExtractSigJsCodeError::NoObjectNameFound => "No object name found when extracting sig js code".to_owned(),
            ExtractSigJsCodeError::NoFunctionsOrCallsFound => "No functions or calls found when extracting sig js code".to_owned(),
        }
    }
}

pub open spec fn calls_pattern() -> Seq<char> {
    r#"function\(a\)\{a=a.split\(""\)(.*?)return a.join\(""\)\}"#@
}

pub open spec fn object_name_pattern() -> Seq<char> {
    r"(.*?)\.|\["@
}

/// The pattern that finds the body of the object `name` in the player script.
pub open spec fn functions_pattern(name: Seq<char>) -> Seq<char> {
    "(?m)var "@ + name + r"=\{([\s\S]*?)\};"@
}

/// The calls that the signature function makes, between its split and its join.
pub open spec fn sig_calls(player_res: Seq<char>) -> Option<Seq<char>> {
    capture_group(calls_pattern(), player_res, 1)
}

/// The name of the object whose methods the signature function calls.
pub open spec fn sig_object_name(player_res: Seq<char>) -> Option<Seq<char>> {
    let calls = match sig_calls(player_res) {
        Some(c) => c,
        None => Seq::empty(),
    };
    match capture_group(object_name_pattern(), calls, 1) {
        Some(n) => Some(trimmed(replace_all(n, ";"@, ""@))),
        None => None,
    }
}

/// The body of that object.
pub open spec fn sig_functions(player_res: Seq<char>) -> Option<Seq<char>> {
    let name = match sig_object_name(player_res) {
        Some(n) => n,
        None => Seq::empty(),
    };
    capture_group(functions_pattern(name), player_res, 1)
}

/// The deciphering function for signatures, from the object's name, its body
/// and the calls, as far as they were found.
pub open spec fn sig_js_code(
    object_name: Option<Seq<char>>,
    functions: Option<Seq<char>>,
    calls: Option<Seq<char>>,
) -> Result<Seq<char>, ExtractSigJsCodeError> {
    let head = "function decipher_sig(a) { a = a.split(\"\"); let "@;
    let tail = " return a.join(\"\") }"@;
    match (object_name, functions, calls) {
        (Some(o), Some(f), Some(c)) => Ok(head + o + "={"@ + f + "}"@ + c + tail),
        (Some(o), None, Some(c)) => Ok(head + o + "={}"@ + c + tail),
        (Some(o), Some(f), None) => Ok(head + o + "={"@ + f + "}"@ + tail),
        (None, _, _) => Err(ExtractSigJsCodeError::NoObjectNameFound),
        _ => Err(ExtractSigJsCodeError::NoFunctionsOrCallsFound),
    }
}

pub open spec fn result_view<E>(r: Result<String, E>) -> Result<Seq<char>, E> {
    match r {
        Ok(s) => Ok(s@),
        Err(e) => Err(e),
    }
}

pub open spec fn opt_view(o: Option<&str>) -> Option<Seq<char>> {
    match o {
        Some(s) => Some(s@),
        None => None,
    }
}

/// Assembles the signature deciphering function from the parts found in the
/// player script.
pub fn assemble_sig_js_code(
    object_name: Option<&str>,
    functions: Option<&str>,
    calls: Option<&str>,
) -> (r: Result<String, ExtractSigJsCodeError>)
    ensures
        result_view(r) == sig_js_code(opt_view(object_name), opt_view(functions), opt_view(calls)),
{
    let head = "function decipher_sig(a) { a = a.split(\"\"); let ";
    let tail = " return a.join(\"\") }";
    match (object_name, functions, calls) {
        (Some(o), Some(f), Some(c)) => {
            let mut s = cat3(head, o, "={");
            s.append(f);
            s.append("}");
            s.append(c);
            s.append(tail);
            Ok(s)
        },
        (Some(o), None, Some(c)) => {
            let mut s = cat3(head, o, "={}");
            s.append(c);
            s.append(tail);
            Ok(s)
        },
        (Some(o), Some(f), None) => {
            let mut s = cat3(head, o, "={");
            s.append(f);
            s.append("}");
            s.append(tail);
            Ok(s)
        },
        (None, _, _) => Err(ExtractSigJsCodeError::NoObjectNameFound),
        _ => Err(ExtractSigJsCodeError::NoFunctionsOrCallsFound),
    }
}

pub open spec fn opt_string_view(o: Option<String>) -> Option<Seq<char>> {
    match o {
        Some(s) => Some(s@),
        None => None,
    }
}

pub fn as_opt_str(o: &Option<String>) -> (r: Option<&str>)
    ensures
        opt_view(r) == opt_string_view(*o),
{
    match o {
        Some(s) => Some(s.as_str()),
        None => None,
    }
}

/// The signature deciphering function found in the player script.
pub fn extract_sig_js_code(player_res: &str) -> (r: Result<String, ExtractSigJsCodeError>)
    ensures
        result_view(r) == sig_js_code(
            sig_object_name(player_res@),
            sig_functions(player_res@),
            sig_calls(player_res@),
        ),
{
    let calls = capture(
        r#"function\(a\)\{a=a.split\(""\)(.*?)return a.join\(""\)\}"#,
        player_res,
        1,
    );
    proof {
        reveal_strlit("");
    }
    let calls_text = match &calls {
        Some(c) => c.as_str(),
        None => "",
    };
    assert(calls_text@ == (match sig_calls(player_res@) { Some(c) => c, None => Seq::<char>::empty() }));
    let cap = capture(r"(.*?)\.|\[", calls_text, 1);
    assert(opt_string_view(cap) == capture_group(object_name_pattern(), calls_text@, 1));
    let object_name = match cap {
        Some(n) => {
            let without = replace(n.as_str(), ";", "");
            Some(trim(without.as_str()))
        },
        None => None,
    };
    let name_text = match &object_name {
        Some(n) => n.as_str(),
        None => "",
    };
    let mut pattern = cat("(?m)var ", name_text);
    pattern.append(r"=\{([\s\S]*?)\};");
    let functions = capture(pattern.as_str(), player_res, 1);
    assert(opt_string_view(calls) == sig_calls(player_res@));
    assert(opt_string_view(object_name) == sig_object_name(player_res@));
    assert(opt_string_view(functions) == sig_functions(player_res@));
    assemble_sig_js_code(as_opt_str(&object_name), as_opt_str(&functions), as_opt_str(&calls))
}

pub enum ExtractNsigJsCodeError {
    NoNsigFound,
}

impl ExtractNsigJsCodeError {
    pub open spec fn spec_message(&self) -> Seq<char> {
        "No nsig code found"@
    }

    /// The text that `Display` writes for this error.
    pub fn message(&self) -> (r: String)
        ensures
            r@ == self.spec_message(),
    {
        "No nsig code found".to_owned()
    }
}

pub open spec fn nsig_pattern() -> Seq<char> {
    r#"b=a.split\(""\)([\s\S]*?)}return b\.join\(""\)"#@
}

/// The body of the n-parameter function in the player script.
pub open spec fn nsig_body(player_res: Seq<char>) -> Option<Seq<char>> {
    capture_group(nsig_pattern(), player_res, 1)
}

/// The deciphering function for the n parameter, from its body.
pub open spec fn nsig_js_code(nsig: Option<Seq<char>>) -> Result<Seq<char>, ExtractNsigJsCodeError> {
    match nsig {
        Some(n) => Ok("function decipher_nsig(a) { let b=a.split(\"\")"@ + n
            + "} return b.join(\"\")}"@),
        None => Err(ExtractNsigJsCodeError::NoNsigFound),
    }
}

/// Assembles the n-parameter deciphering function from its body.
pub fn assemble_nsig_js_code(nsig: Option<&str>) -> (r: Result<String, ExtractNsigJsCodeError>)
    ensures
        result_view(r) == nsig_js_code(opt_view(nsig)),
{
    match nsig {
        Some(n) => Ok(cat3("function decipher_nsig(a) { let b=a.split(\"\")", n, "} return b.join(\"\")}")),
        None => Err(ExtractNsigJsCodeError::NoNsigFound),
    }
}

/// The n-parameter deciphering function found in the player script.
pub fn extract_nsig_js_code(player_res: &str) -> (r: Result<String, ExtractNsigJsCodeError>)
    ensures
        result_view(r) == nsig_js_code(nsig_body(player_res@)),
{
    let nsig = capture(r#"b=a.split\(""\)([\s\S]*?)}return b\.join\(""\)"#, player_res, 1);
    assemble_nsig_js_code(as_opt_str(&nsig))
}

pub enum CreateFormattableDecipherJsError {
    ErrorExtractingSig(ExtractSigJsCodeError),
    ErrorExtractingNsig(ExtractNsigJsCodeError),
}

impl CreateFormattableDecipherJsError {
    pub open spec fn spec_message(&self) -> Seq<char> {
        match self {
            CreateFormattableDecipherJsError::ErrorExtractingSig(e) => e.spec_message(),
            CreateFormattableDecipherJsError::ErrorExtractingNsig(e) => e.spec_message(),
        }
    }

    /// The text that `Display` writes for this error.
    pub fn message(&self) -> (r: String)
        ensures
            r@ == self.spec_message(),
    {
        match self {
            CreateFormattableDecipherJsError::ErrorExtractingSig(e) => e.message(),
            CreateFormattableDecipherJsError::ErrorExtractingNsig(e) => e.message(),
        }
    }
}

/// The statements that follow the two deciphering functions: they decipher
/// `s` and `n` and leave the deciphered address as the script's value.
pub open spec fn decipher_js_tail() -> Seq<char> {
    ";\nvar deciphered_sig = decipher_sig(s);\nvar deciphered_nsig = decipher_nsig(n);\nvar deciphered_url = `${url.replace(`&n=${n}`, `&n=${deciphered_nsig}`)}&${sp}=${encodeURIComponent(deciphered_sig)}`;\ndeciphered_url"@
}

/// The deciphering script, still without the values of `url`, `s`, `sp` and `n`.
pub open spec fn formatable_decipher_js_code(player_res: Seq<char>) -> Result<
    Seq<char>,
    CreateFormattableDecipherJsError,
> {
    match sig_js_code(sig_object_name(player_res), sig_functions(player_res), sig_calls(player_res)) {
        Err(e) => Err(CreateFormattableDecipherJsError::ErrorExtractingSig(e)),
        Ok(sig) => match nsig_js_code(nsig_body(player_res)) {
            Err(e) => Err(CreateFormattableDecipherJsError::ErrorExtractingNsig(e)),
            Ok(nsig) => Ok(sig + "; "@ + nsig + decipher_js_tail()),
        },
    }
}

pub fn create_formatable_decipher_js_code(player_res: &str) -> (r: Result<
    String,
    CreateFormattableDecipherJsError,
>)
    ensures
        result_view(r) == formatable_decipher_js_code(player_res@),
{
    let sig_js = match extract_sig_js_code(player_res) {
        Ok(result) => result,
        Err(e) => {
            return Err(CreateFormattableDecipherJsError::ErrorExtractingSig(e));
        },
    };
    let nsig_js = match extract_nsig_js_code(player_res) {
        Ok(result) => result,
        Err(e) => {
            return Err(CreateFormattableDecipherJsError::ErrorExtractingNsig(e));
        },
    };
    let mut code = cat3(sig_js.as_str(), "; ", nsig_js.as_str());
    code.append(
        ";\nvar deciphered_sig = decipher_sig(s);\nvar deciphered_nsig = decipher_nsig(n);\nvar deciphered_url = `${url.replace(`&n=${n}`, `&n=${deciphered_nsig}`)}&${sp}=${encodeURIComponent(deciphered_sig)}`;\ndeciphered_url",
    );
    Ok(code)
}

pub enum CreateExecutableDecipherJsError {
    ErrorCreatingFormattableCode(CreateFormattableDecipherJsError),
    ErrorFormatingCodeIntoExecutable(FormatDecipherCodeError),
}

impl CreateExecutableDecipherJsError {
    pub open spec fn spec_message(&self) -> Seq<char> {
        match self {
            CreateExecutableDecipherJsError::ErrorCreatingFormattableCode(e) => e.spec_message(),
            CreateExecutableDecipherJsError::ErrorFormatingCodeIntoExecutable(e) => e.spec_message(),
        }
    }

    /// The text that `Display` writes for this error.
    pub fn message(&self) -> (r: String)
        ensures
            r@ == self.spec_message(),
    {
        match self {
            CreateExecutableDecipherJsError::ErrorCreatingFormattableCode(e) => e.message(),
            CreateExecutableDecipherJsError::ErrorFormatingCodeIntoExecutable(e) => e.message(),
        }
    }
}

/// The executable deciphering script for the signature cipher `ciphered_url`.
pub open spec fn executable_decipher_js_code(ciphered_url: Seq<char>, player_res: Seq<char>) -> Result<
    Seq<char>,
    CreateExecutableDecipherJsError,
> {
    match formatable_decipher_js_code(player_res) {
        Err(e) => Err(CreateExecutableDecipherJsError::ErrorCreatingFormattableCode(e)),
        Ok(code) => match executable_code(ciphered_url, code) {
            Ok(c) => Ok(c),
            Err(e) => Err(CreateExecutableDecipherJsError::ErrorFormatingCodeIntoExecutable(e)),
        },
    }
}

pub fn create_executable_decipher_js_code(ciphered_url: &str, player_res: &str) -> (r: Result<
    String,
    CreateExecutableDecipherJsError,
>)
    requires
        formatable_decipher_js_code(player_res@) is Ok ==> cipher_url_decodable(ciphered_url@),
    ensures
        result_view(r) == executable_decipher_js_code(ciphered_url@, player_res@),
{
    match create_formatable_decipher_js_code(player_res) {
        Ok(formatable_js_code) => {
            match format_decipher_code_into_executable(ciphered_url, formatable_js_code.as_str()) {
                Ok(decipher_code) => Ok(decipher_code),
                Err(error) => Err(
                    CreateExecutableDecipherJsError::ErrorFormatingCodeIntoExecutable(error),
                ),
            }
        },
        Err(error) => Err(CreateExecutableDecipherJsError::ErrorCreatingFormattableCode(error)),
    }
}

/// The four parts of a signature cipher: the signature `s`, the name of the
/// signature parameter `sp`, the `n` parameter of the address, and the address.
pub open spec fn cipher_s(signature_cipher: Seq<char>) -> Option<Seq<char>> {
    match capture_group(r"s=(.*?)&"@, signature_cipher, 1) {
        Some(s) => percent_decoded(s),
        None => None,
    }
}

pub open spec fn cipher_sp(signature_cipher: Seq<char>) -> Option<Seq<char>> {
    capture_group(r"&sp=(.*?)&"@, signature_cipher, 1)
}

pub open spec fn cipher_url(signature_cipher: Seq<char>) -> Option<Seq<char>> {
    match capture_group(r"&url=(.*)"@, signature_cipher, 1) {
        Some(u) => percent_decoded(u),
        None => None,
    }
}

pub open spec fn cipher_n(signature_cipher: Seq<char>) -> Option<Seq<char>> {
    match cipher_url(signature_cipher) {
        Some(u) => capture_group(r"&n=(.*?)&"@, u, 1),
        None => None,
    }
}

pub open spec fn opt4_view(
    r: (Option<String>, Option<String>, Option<String>, Option<String>),
) -> (Option<Seq<char>>, Option<Seq<char>>, Option<Seq<char>>, Option<Seq<char>>) {
    (opt_string_view(r.0), opt_string_view(r.1), opt_string_view(r.2), opt_string_view(r.3))
}

/// Whether the address in a signature cipher, where it has one, percent-decodes.
pub open spec fn cipher_url_decodable(signature_cipher: Seq<char>) -> bool {
    match capture_group(r"&url=(.*)"@, signature_cipher, 1) {
        Some(u) => percent_decoded(u) is Some,
        None => true,
    }
}

/// Tells whether the address in a signature cipher, where it has one,
/// percent-decodes.
pub fn is_cipher_url_decodable(signature_cipher: &str) -> (r: bool)
    ensures
        r == cipher_url_decodable(signature_cipher@),
{
    match capture(r"&url=(.*)", signature_cipher, 1) {
        Some(encoded_url) => url_decode(encoded_url.as_str()).is_some(),
        None => true,
    }
}

/// Splits a signature cipher into `s`, `sp`, `n` and the address. An `s` that
/// does not percent-decode counts as missing; the address must decode.
pub fn get_s_sp_n_url(signature_cipher: &str) -> (r: (
    Option<String>,
    Option<String>,
    Option<String>,
    Option<String>,
))
    requires
        cipher_url_decodable(signature_cipher@),
    ensures
        opt4_view(r) == (
            cipher_s(signature_cipher@),
            cipher_sp(signature_cipher@),
            cipher_n(signature_cipher@),
            cipher_url(signature_cipher@),
        ),
{
    let s = match capture(r"s=(.*?)&", signature_cipher, 1) {
        Some(captured) => url_decode(captured.as_str()),
        None => None,
    };
    let sp = capture(r"&sp=(.*?)&", signature_cipher, 1);
    let decoded_url = match capture(r"&url=(.*)", signature_cipher, 1) {
        Some(encoded_url) => url_decode(encoded_url.as_str()),
        None => None,
    };
    let n = match &decoded_url {
        Some(decoded) => capture(r"&n=(.*?)&", decoded.as_str(), 1),
        None => None,
    };
    (s, sp, n, decoded_url)
}

/// `Some(get_s_sp_n_url(..))` where the address of the cipher decodes, `None`
/// where it does not.
pub fn try_get_s_sp_n_url(signature_cipher: &str) -> (r: Option<(
    Option<String>,
    Option<String>,
    Option<String>,
    Option<String>,
)>)
    ensures
        r is Some <==> cipher_url_decodable(signature_cipher@),
        r matches Some(parts) ==> opt4_view(parts) == (
            cipher_s(signature_cipher@),
            cipher_sp(signature_cipher@),
            cipher_n(signature_cipher@),
            cipher_url(signature_cipher@),
        ),
{
    if is_cipher_url_decodable(signature_cipher) {
        Some(get_s_sp_n_url(signature_cipher))
    } else {
        None
    }
}

pub enum FormatDecipherCodeError {
    ErrorParsingSignature,
}

impl FormatDecipherCodeError {
    pub open spec fn spec_message(&self) -> Seq<char> {
        "Error parsing signatureCipher"@
    }

    /// The text that `Display` writes for this error.
    pub fn message(&self) -> (r: String)
        ensures
            r@ == self.spec_message(),
    {
        "Error parsing signatureCipher".to_owned()
    }
}

/// The script that sets `url`, `s`, `sp` and `n` from the signature cipher
/// and then runs `js_code`.
pub open spec fn executable_code(ciphered_url: Seq<char>, js_code: Seq<char>) -> Result<
    Seq<char>,
    FormatDecipherCodeError,
> {
    match (
        cipher_url(ciphered_url),
        cipher_s(ciphered_url),
        cipher_sp(ciphered_url),
        cipher_n(ciphered_url),
    ) {
        (Some(url), Some(s), Some(sp), Some(n)) => Ok("var url = \""@ + url
            + "\";\n      var s = \""@ + s + "\";\n      var sp = \""@ + sp
            + "\";\n      var n = \""@ + n + "\";\n      "@ + js_code),
        _ => Err(FormatDecipherCodeError::ErrorParsingSignature),
    }
}

pub fn format_decipher_code_into_executable(ciphered_url: &str, js_code: &str) -> (r: Result<
    String,
    FormatDecipherCodeError,
>)
    requires
        cipher_url_decodable(ciphered_url@),
    ensures
        result_view(r) == executable_code(ciphered_url@, js_code@),
{
    let (s, sp, n, decoded_url) = get_s_sp_n_url(ciphered_url);
    match (decoded_url, s, sp, n) {
        (Some(decoded_url), Some(s), Some(sp), Some(n)) => {
            let mut code = cat3("var url = \"", decoded_url.as_str(), "\";\n      var s = \"");
            code.append(s.as_str());
            code.append("\";\n      var sp = \"");
            code.append(sp.as_str());
            code.append("\";\n      var n = \"");
            code.append(n.as_str());
            code.append("\";\n      ");
            code.append(js_code);
            Ok(code)
        },
        _ => Err(FormatDecipherCodeError::ErrorParsingSignature),
    }
}

/// The deciphering script of each signature cipher in turn, where it can be made.
pub open spec fn decipher_scripts(ciphered_urls: Seq<Seq<char>>, js_code: Seq<char>) -> Seq<
    Option<Seq<char>>,
> {
    Seq::new(
        ciphered_urls.len(),
        |i: int|
            match executable_code(ciphered_urls[i], js_code) {
                Ok(c) => Some(c),
                Err(_) => None,
            },
    )
}

pub open spec fn opt_quoted(script: Option<Seq<char>>) -> Option<Seq<char>> {
    match script {
        Some(c) => Some(quoted_js_code(c)),
        None => None,
    }
}

/// The scripts that decipher each signature cipher with the player script,
/// quoted for the engine: the message of the error where the player script
/// gives no deciphering functions, else one entry per cipher, `None` where no
/// script can be made for it.
pub fn decipher_stream_scripts(ciphered_urls: &Vec<String>, player_res: &str) -> (r: Result<
    Vec<Option<String>>,
    String,
>)
    requires
        formatable_decipher_js_code(player_res@) is Ok ==> forall|i: int|
            0 <= i < ciphered_urls@.len() ==> cipher_url_decodable(#[trigger] ciphered_urls@[i]@),
    ensures
        match formatable_decipher_js_code(player_res@) {
            Err(e) => r matches Err(m) && m@ == e.spec_message(),
            Ok(code) => r matches Ok(v) && v@.len() == ciphered_urls@.len() && forall|i: int|
                0 <= i < v@.len() ==> (#[trigger] v@[i]).deep_view() == opt_quoted(
                    decipher_scripts(strings_view(ciphered_urls@), code)[i],
                ),
        },
{
    match create_formatable_decipher_js_code(player_res) {
        Ok(formatable_js_code) => {
            let ghost code = formatable_js_code@;
            let mut out: Vec<Option<String>> = Vec::new();
            let mut i: usize = 0;
            while i < ciphered_urls.len()
                invariant
                    i <= ciphered_urls@.len(),
                    code == formatable_js_code@,
                    formatable_decipher_js_code(player_res@) == Ok::<Seq<char>, CreateFormattableDecipherJsError>(code),
                    forall|k: int|
                        0 <= k < ciphered_urls@.len() ==> cipher_url_decodable(#[trigger] ciphered_urls@[k]@),
                    out@.len() == i,
                    forall|j: int|
                        0 <= j < i ==> (#[trigger] out@[j]).deep_view() == opt_quoted(
                            decipher_scripts(strings_view(ciphered_urls@), code)[j],
                        ),
                decreases ciphered_urls@.len() - i,
            {
                assert(cipher_url_decodable(ciphered_urls@[i as int]@));
                assert(strings_view(ciphered_urls@)[i as int] == ciphered_urls@[i as int]@);
                let entry = match format_decipher_code_into_executable(
                    ciphered_urls[i].as_str(),
                    formatable_js_code.as_str(),
                ) {
                    Ok(executable_js_code) => Some(quote_regex_literals(executable_js_code)),
                    Err(_) => None,
                };
                out.push(entry);
                i = i + 1;
            }
            Ok(out)
        },
        Err(error) => Err(error.message()),
    }
}

/// The script that deciphers one signature cipher with the player script,
/// quoted for the engine, or the message of the error where none can be made.
pub fn decipher_stream_script(ciphered_url: &str, player_res: &str) -> (r: Result<String, String>)
    requires
        formatable_decipher_js_code(player_res@) is Ok ==> cipher_url_decodable(ciphered_url@),
    ensures
        string_result_view(r) == match executable_decipher_js_code(ciphered_url@, player_res@) {
            Ok(code) => Ok(quoted_js_code(code)),
            Err(e) => Err(e.spec_message()),
        },
{
    match create_executable_decipher_js_code(ciphered_url, player_res) {
        Ok(js_code) => Ok(quote_regex_literals(js_code)),
        Err(error) => Err(error.message()),
    }
}

/// `Some(decipher_stream_script(..))` where the player script gives no
/// deciphering functions or the address of the cipher decodes, `None`
/// otherwise.
pub fn try_decipher_stream_script(ciphered_url: &str, player_res: &str) -> (r: Option<Result<String, String>>)
    ensures
        r is Some <==> (formatable_decipher_js_code(player_res@) is Ok ==> cipher_url_decodable(ciphered_url@)),
        r matches Some(res) ==> string_result_view(res) == match executable_decipher_js_code(
            ciphered_url@,
            player_res@,
        ) {
            Ok(code) => Ok(quoted_js_code(code)),
            Err(e) => Err(e.spec_message()),
        },
{
    let formatable = create_formatable_decipher_js_code(player_res);
    if formatable.is_ok() && !is_cipher_url_decodable(ciphered_url) {
        None
    } else {
        Some(decipher_stream_script(ciphered_url, player_res))
    }
}

/// `Some(decipher_stream_scripts(..))` where the player script gives no
/// deciphering functions or the address of every cipher decodes, `None`
/// otherwise.
pub fn try_decipher_stream_scripts(ciphered_urls: &Vec<String>, player_res: &str) -> (r: Option<Result<
    Vec<Option<String>>,
    String,
>>)
    ensures
        r is Some <==> (formatable_decipher_js_code(player_res@) is Ok ==> forall|i: int|
            0 <= i < ciphered_urls@.len() ==> cipher_url_decodable(#[trigger] ciphered_urls@[i]@)),
        r matches Some(res) ==> match formatable_decipher_js_code(player_res@) {
            Err(e) => res matches Err(m) && m@ == e.spec_message(),
            Ok(code) => res matches Ok(v) && v@.len() == ciphered_urls@.len() && forall|i: int|
                0 <= i < v@.len() ==> (#[trigger] v@[i]).deep_view() == opt_quoted(
                    decipher_scripts(strings_view(ciphered_urls@), code)[i],
                ),
        },
{
    let formatable = create_formatable_decipher_js_code(player_res);
    if formatable.is_ok() {
        let mut i: usize = 0;
        while i < ciphered_urls.len()
            invariant
                i <= ciphered_urls@.len(),
                formatable_decipher_js_code(player_res@) is Ok,
                forall|k: int| 0 <= k < i ==> cipher_url_decodable(#[trigger] ciphered_urls@[k]@),
            decreases ciphered_urls@.len() - i,
        {
            if !is_cipher_url_decodable(ciphered_urls[i].as_str()) {
                assert(!cipher_url_decodable(ciphered_urls@[i as int]@));
                return None;
            }
            i = i + 1;
        }
    }
    Some(decipher_stream_scripts(ciphered_urls, player_res))
}

pub open spec fn needs_quotes_pattern() -> Seq<char> {
    r"\/\\+.*\/"@
}

/// Each group of the leftmost regular-expression literal in `js_code`, put
/// between back-quotes wherever it occurs (the engine takes them better that way).
pub open spec fn quote_groups(js_code: Seq<char>, groups: Seq<Option<Seq<char>>>) -> Seq<char>
    decreases groups.len(),
{
    if groups.len() == 0 {
        js_code
    } else {
        let prev = quote_groups(js_code, groups.drop_last());
        match groups.last() {
            Some(m) => replace_all(prev, m, "`"@ + m + "`"@),
            None => prev,
        }
    }
}

proof fn lemma_quote_groups_step(js: Seq<char>, g: Seq<Option<Seq<char>>>, i: int)
    requires
        0 <= i < g.len(),
    ensures
        quote_groups(js, g.take(i + 1)) == match g[i] {
            Some(m) => replace_all(quote_groups(js, g.take(i)), m, "`"@ + m + "`"@),
            None => quote_groups(js, g.take(i)),
        },
{
    let t = g.take(i + 1);
    assert(t.len() == i + 1);
    assert(t.drop_last() =~= g.take(i));
    assert(t.last() == g[i]);
}

pub open spec fn quoted_js_code(js_code: Seq<char>) -> Seq<char> {
    match regex_captures(needs_quotes_pattern(), js_code) {
        Some(groups) => quote_groups(js_code, groups),
        None => js_code,
    }
}

/// `js_code` with its regular-expression literal quoted, as it is handed to
/// the engine.
pub fn quote_regex_literals(js_code: String) -> (r: String)
    ensures
        r@ == quoted_js_code(js_code@),
{
    let mut code = js_code;
    let ghost before_quoting = code@;
    match captures(r"\/\\+.*\/", code.as_str()) {
        Some(groups) => {
            let ghost g = groups.deep_view();
            let mut i: usize = 0;
            assert(g.take(0) =~= Seq::<Option<Seq<char>>>::empty());
            while i < groups.len()
                invariant
                    i <= groups@.len(),
                    g == groups.deep_view(),
                    code@ == quote_groups(before_quoting, g.take(i as int)),
                decreases groups@.len() - i,
            {
                assert(g.len() == groups@.len());
                assert(g.take(i + 1).drop_last() =~= g.take(i as int));
                assert(g.take(i + 1).last() == g[i as int]);
                assert(g[i as int] == groups@[i as int].deep_view());
                let ghost prev = code@;
                match &groups[i] {
                    Some(m) => {
                        let quoted = cat3("`", m.as_str(), "`");
                        code = replace(code.as_str(), m.as_str(), quoted.as_str());
                        assert(g[i as int] == Some(m@));
                        assert(code@ == replace_all(prev, m@, "`"@ + m@ + "`"@));
                    },
                    None => {
                        assert(g[i as int] is None);
                    },
                }
                proof {
                    lemma_quote_groups_step(before_quoting, g, i as int);
                }
                i = i + 1;
            }
            assert(g.take(i as int) =~= g);
            code
        },
        None => code,
    }
}

/// Why the engine gave no text for a script.
pub enum JsEvalError {
    /// The script did not parse or threw.
    Run,
    /// Its value could not be turned into a string.
    Output,
}

/// What a run of the engine gives as the result of a deciphering script: the
/// text of the script's value, or the message of the error.
pub open spec fn js_result(outcome: Result<Seq<char>, JsEvalError>) -> Result<Seq<char>, Seq<char>> {
    match outcome {
        Ok(text) => Ok(text),
        Err(JsEvalError::Run) => Err("error running JS"@),
        Err(JsEvalError::Output) => Err("error parsing JS output"@),
    }
}

pub open spec fn string_result_view(r: Result<String, String>) -> Result<Seq<char>, Seq<char>> {
    match r {
        Ok(s) => Ok(s@),
        Err(m) => Err(m@),
    }
}

/// Turns what the engine gave for a deciphering script into its result.
pub fn js_eval_result(outcome: Result<String, JsEvalError>) -> (r: Result<String, String>)
    ensures
        string_result_view(r) == js_result(result_view(outcome)),
{
    match outcome {
        Ok(result) => Ok(result),
        Err(JsEvalError::Output) => Err("error parsing JS output".to_owned()),
        Err(JsEvalError::Run) => Err("error running JS".to_owned()),
    }
}

} // verus!
