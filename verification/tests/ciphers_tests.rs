use yayti::parsers::ciphers::JsEvalError;
use yayti::parsers::ciphers::{
    create_executable_decipher_js_code, create_formatable_decipher_js_code, decipher_stream_script,
    decipher_stream_scripts, extract_nsig_js_code, extract_sig_js_code, extract_sig_timestamp,
    format_decipher_code_into_executable, get_s_sp_n_url, is_cipher_url_decodable,
    quote_regex_literals, try_decipher_stream_script, try_decipher_stream_scripts,
    try_get_s_sp_n_url, js_eval_result,
    CreateExecutableDecipherJsError, CreateFormattableDecipherJsError, ExtractNsigJsCodeError,
    ExtractSigJsCodeError, FormatDecipherCodeError,
};

/// Runs a script in boa, as the application does.
fn eval(code: &str) -> Result<String, JsEvalError> {
    let mut context = boa_engine::Context::default();
    match context.eval(code) {
        Ok(value) => match value.to_string(&mut context) {
            Ok(s) => Ok(s.as_str().to_string()),
            Err(_) => Err(JsEvalError::Output),
        },
        Err(_) => Err(JsEvalError::Run),
    }
}

/// Quotes a script and runs it, turning the engine's outcome into a result.
fn run(code: &str) -> Result<String, String> {
    let quoted = quote_regex_literals(String::from(code));
    js_eval_result(eval(&quoted))
}

const PLAYER: &str = r#"var XY={ab:function(a,b){a.splice(0,b)},cd:function(a){a.reverse()}};
foo=function(a){a=a.split("");XY.cd(a,1);XY.ab(a,2);return a.join("")};
bar=function(a){var b=a.split("");{b.reverse()}return b.join("")};
signatureTimestamp:19369,"#;

const CIPHER: &str = "s=abcdef&sp=sig&url=https%3A%2F%2Fr1.googlevideo.com%2Fv%3Fa%3D1%26n%3Dxyz%26b%3D2";

#[test]
fn signature_timestamp_is_read() {
    assert_eq!(extract_sig_timestamp(PLAYER).ok(), Some(19369));
    assert!(extract_sig_timestamp("no timestamp here").is_err());
    assert!(extract_sig_timestamp("signatureTimestamp:abc,").is_err());
}

#[test]
fn sig_code_is_assembled() {
    let code = extract_sig_js_code(PLAYER).ok().unwrap();
    assert_eq!(
        code,
        r#"function decipher_sig(a) { a = a.split(""); let XY={ab:function(a,b){a.splice(0,b)},cd:function(a){a.reverse()}};XY.cd(a,1);XY.ab(a,2); return a.join("") }"#
    );
    let err = extract_sig_js_code("nothing").err().unwrap();
    assert!(matches!(err, ExtractSigJsCodeError::NoObjectNameFound));
    assert_eq!(err.message(), "No object name found when extracting sig js code");
}

#[test]
fn nsig_code_is_assembled() {
    let code = extract_nsig_js_code(PLAYER).ok().unwrap();
    assert_eq!(code, r#"function decipher_nsig(a) { let b=a.split("");{b.reverse()} return b.join("")}"#);
    let err = extract_nsig_js_code("nothing").err().unwrap();
    assert!(matches!(err, ExtractNsigJsCodeError::NoNsigFound));
    assert_eq!(err.message(), "No nsig code found");
}

#[test]
fn formatable_code_joins_both() {
    let code = create_formatable_decipher_js_code(PLAYER).ok().unwrap();
    let sig = extract_sig_js_code(PLAYER).ok().unwrap();
    let nsig = extract_nsig_js_code(PLAYER).ok().unwrap();
    assert!(code.starts_with(&format!("{}; {};\nvar deciphered_sig = decipher_sig(s);", sig, nsig)));
    assert!(code.ends_with("\ndeciphered_url"));
    let no_nsig = r#"var XY={ab:function(a,b){a.splice(0,b)}};
foo=function(a){a=a.split("");XY.ab(a,2);return a.join("")};"#;
    let err = create_formatable_decipher_js_code(no_nsig).err().unwrap();
    assert!(matches!(err, CreateFormattableDecipherJsError::ErrorExtractingNsig(_)));
    assert_eq!(err.message(), "No nsig code found");
}

#[test]
fn cipher_parts_are_split() {
    let (s, sp, n, url) = get_s_sp_n_url(CIPHER);
    assert_eq!(s, Some(String::from("abcdef")));
    assert_eq!(sp, Some(String::from("sig")));
    assert_eq!(n, Some(String::from("xyz")));
    assert_eq!(url, Some(String::from("https://r1.googlevideo.com/v?a=1&n=xyz&b=2")));
    let (s2, sp2, n2, url2) = get_s_sp_n_url("nothing");
    assert_eq!((s2, sp2, n2, url2), (None, None, None, None));
}

#[test]
fn executable_code_sets_the_variables() {
    let code = format_decipher_code_into_executable(CIPHER, "JS").ok().unwrap();
    assert_eq!(
        code,
        "var url = \"https://r1.googlevideo.com/v?a=1&n=xyz&b=2\";\n      var s = \"abcdef\";\n      var sp = \"sig\";\n      var n = \"xyz\";\n      JS"
    );
    let err = format_decipher_code_into_executable("s=a&sp=b", "JS").err().unwrap();
    assert!(matches!(err, FormatDecipherCodeError::ErrorParsingSignature));
    assert_eq!(err.message(), "Error parsing signatureCipher");
    let err2 = create_executable_decipher_js_code("s=a&sp=b", PLAYER).err().unwrap();
    assert!(matches!(err2, CreateExecutableDecipherJsError::ErrorFormatingCodeIntoExecutable(_)));
}

#[test]
fn regex_literals_are_quoted() {
    assert_eq!(quote_regex_literals(String::from("x.replace(/\\d/,1)")), "x.replace(`/\\d/`,1)");
    assert_eq!(quote_regex_literals(String::from("plain")), "plain");
}

#[test]
fn javascript_runs() {
    assert_eq!(run("1 + 2").ok(), Some(String::from("3")));
    assert_eq!(run("this is not js (").err(), Some(String::from("error running JS")));
}

#[test]
fn stream_is_deciphered() {
    let expected = String::from("https://r1.googlevideo.com/v?a=1&n=zyx&b=2&sig=dcba");
    let script = decipher_stream_script(CIPHER, PLAYER).ok().unwrap();
    assert_eq!(js_eval_result(eval(&script)), Ok(expected.clone()));
    let scripts = decipher_stream_scripts(&vec![String::from(CIPHER), String::from("bad")], PLAYER).ok().unwrap();
    assert_eq!(scripts.len(), 2);
    assert_eq!(scripts[0], Some(script));
    assert_eq!(scripts[1], None);
    let all: Vec<Option<String>> = scripts.iter().map(|s| s.as_ref().and_then(|c| js_eval_result(eval(c)).ok())).collect();
    assert_eq!(all.len(), 2);
    assert_eq!(all[0], Some(expected));
    assert_eq!(all[1], None);
    assert_eq!(decipher_stream_scripts(&vec![String::from(CIPHER)], "nothing").err(), Some(String::from("No object name found when extracting sig js code")));
    assert_eq!(decipher_stream_script(CIPHER, "nothing").err(), Some(String::from("No object name found when extracting sig js code")));
    assert_eq!(run("var a = \"abcdef\".split(\"\"); a.reverse(); a.splice(0, 2); a.join(\"\")").ok(), Some(String::from("dcba")));
}

#[test]
fn undecodable_address_is_refused() {
    let bad = "s=abc&sp=sig&url=https%3A%2F%2Fx%FF";
    assert!(is_cipher_url_decodable(CIPHER));
    assert!(is_cipher_url_decodable("no address here"));
    assert!(!is_cipher_url_decodable(bad));
    assert!(try_get_s_sp_n_url(bad).is_none());
    let parts = try_get_s_sp_n_url(CIPHER).unwrap();
    assert_eq!(parts.0, Some(String::from("abcdef")));
    assert_eq!(parts.3, Some(String::from("https://r1.googlevideo.com/v?a=1&n=xyz&b=2")));
    assert!(try_decipher_stream_script(bad, PLAYER).is_none());
    assert_eq!(
        try_decipher_stream_script(bad, "nothing"),
        Some(Err(String::from("No object name found when extracting sig js code")))
    );
    assert!(try_decipher_stream_scripts(&vec![String::from(CIPHER), String::from(bad)], PLAYER).is_none());
    let all = try_decipher_stream_scripts(&vec![String::from(CIPHER)], PLAYER).unwrap().ok().unwrap();
    assert_eq!(all, vec![Some(decipher_stream_script(CIPHER, PLAYER).ok().unwrap())]);
}

#[test]
fn engine_outcomes_become_results() {
    assert_eq!(js_eval_result(Ok(String::from("https://x"))), Ok(String::from("https://x")));
    assert_eq!(js_eval_result(Err(JsEvalError::Run)), Err(String::from("error running JS")));
    assert_eq!(js_eval_result(Err(JsEvalError::Output)), Err(String::from("error parsing JS output")));
}
