use mail_compose::encoded_word::{
    EncodedWord, EncodedWordContext, EncodedWordEncoding, EncodedWordError,
};

fn parsed(text: &str) -> EncodedWord {
    EncodedWord::parse(text.to_string(), EncodedWordContext::Text).unwrap()
}

#[test]
fn encode_quoted_printable() {
    let res = EncodedWord::encode_word(
        "täst",
        EncodedWordEncoding::QuotedPrintable,
        EncodedWordContext::Text,
    );
    assert_eq!(1, res.len());
    assert_eq!("=?utf8?Q?t=C3=A4st?=", res[0].as_str());
}

#[test]
fn encode_base64() {
    let res = EncodedWord::encode_word("täst", EncodedWordEncoding::Base64, EncodedWordContext::Text);
    assert_eq!(1, res.len());
    assert_eq!("=?utf8?B?dMOkc3Q=?=", res[0].as_str());
}

#[test]
fn parse() {
    let ec_res = EncodedWord::parse("=?utf8?Q?123?=".to_string(), EncodedWordContext::Text);
    assert_eq!(true, ec_res.is_ok());
    let ec = ec_res.unwrap();
    assert_eq!("=?utf8?Q?123?=", ec.as_str());
}

#[test]
fn parse_err() {
    let ec_res = EncodedWord::parse("=?utf8???Q123?=".to_string(), EncodedWordContext::Text);
    assert_eq!(false, ec_res.is_ok());
}

#[test]
fn decode_base64() {
    let ec = parsed("=?utf8?B?dMOkc3Q=?=");
    let dec = ec.decode_word().unwrap();
    assert_eq!("täst", dec);
}

#[test]
fn decode_quoted_printable() {
    let ec = parsed("=?utf8?Q?t=C3=A4st?=");
    let dec = ec.decode_word().unwrap();
    assert_eq!("täst", dec);
}

#[test]
fn unknow_encoding() {
    let ec = parsed("=?utf8?R?test?=");
    assert_eq!(false, ec.decode_word().is_ok());
}

#[test]
fn broken_encoding() {
    let ec = parsed("=?utf8?Q?ab=_ups?=");
    assert_eq!(false, ec.decode_word().is_ok());
}

#[test]
fn broken_charset_encoding() {
    let ec = parsed("=?utf8?Q?ab=FFups?=");
    assert_eq!(false, ec.decode_word().is_ok());
}

#[test]
fn multi_char_encoding() {
    let res = EncodedWord::parse("=?utf8?Qnot?abcd?=".to_string(), EncodedWordContext::Text);
    assert_eq!(true, res.is_ok());
    let dec_res = res.unwrap().decode_word();
    assert_eq!(false, dec_res.is_ok());
}

#[test]
fn decode_errors_are_exact() {
    assert_eq!(Err(EncodedWordError::UnknownEncoding), parsed("=?utf8?R?test?=").decode_word());
    assert_eq!(Err(EncodedWordError::UnknownEncoding), parsed("=?utf8?Qnot?abcd?=").decode_word());
    assert_eq!(Err(EncodedWordError::BrokenEncoding), parsed("=?utf8?Q?ab=_ups?=").decode_word());
    assert_eq!(Err(EncodedWordError::BrokenEncoding), parsed("=?utf8?Q?ab=FFups?=").decode_word());
    assert_eq!(Err(EncodedWordError::BrokenEncoding), parsed("=?utf8?B?dMOkc3Q?=").decode_word());
}

#[test]
fn other_charset_is_unsupported() {
    let ec = parsed("=?iso-8859-1?Q?abc?=");
    assert_eq!(Err(EncodedWordError::UnsupportedCharset), ec.decode_word());
    let ec = parsed("=?UTF-8?B?dMOkc3Q=?=");
    assert_eq!(Err(EncodedWordError::UnsupportedCharset), ec.decode_word());
}

#[test]
fn parse_refuses_what_the_grammar_refuses() {
    let refused = [
        "=?utf8?Q?a b?=",
        "utf8?Q?abc",
        "=?utf8?Q?abc",
        "=??Q?abc?=",
        "=?utf8?Q?a?b?=",
        "=?ut(f8?Q?abc?=",
    ];
    for text in refused.iter() {
        assert_eq!(
            Err(EncodedWordError::InvalidEncodedWord),
            EncodedWord::parse(text.to_string(), EncodedWordContext::Text).map(|w| w.as_str().to_string())
        );
    }
    let long = format!("=?utf8?Q?{}?=", "a".repeat(70));
    assert!(EncodedWord::parse(long, EncodedWordContext::Text).is_err());
}

#[test]
fn context_decides_allowed_characters() {
    assert!(EncodedWord::parse("=?utf8?Q?a(b?=".to_string(), EncodedWordContext::Text).is_ok());
    assert!(EncodedWord::parse("=?utf8?Q?a(b?=".to_string(), EncodedWordContext::Comment).is_err());
    assert!(EncodedWord::parse("=?utf8?Q?a.b?=".to_string(), EncodedWordContext::Phrase).is_err());
    let w = EncodedWord::parse("=?utf8?Q?a_b?=".to_string(), EncodedWordContext::Phrase).unwrap();
    assert_eq!(EncodedWordContext::Phrase, w.context());
    assert_eq!("a b", w.decode_word().unwrap());
}

#[test]
fn round_trip_both_encodings() {
    let texts = ["täst", "hello world", "a_b=c?d", "", "Grüße aus Köln!", "日本語"];
    for enc in [EncodedWordEncoding::Base64, EncodedWordEncoding::QuotedPrintable].iter() {
        for ctx in [EncodedWordContext::Text, EncodedWordContext::Comment, EncodedWordContext::Phrase].iter() {
            for text in texts.iter() {
                let words = EncodedWord::encode_word(text, *enc, *ctx);
                assert_eq!(1, words.len());
                assert_eq!(*text, words[0].decode_word().unwrap());
                let reparsed = EncodedWord::parse(words[0].as_str().to_string(), *ctx).unwrap();
                assert_eq!(*text, reparsed.decode_word().unwrap());
            }
        }
    }
}

#[test]
fn quoted_printable_escapes_specials() {
    let res = EncodedWord::encode_word(
        "a b?_=",
        EncodedWordEncoding::QuotedPrintable,
        EncodedWordContext::Phrase,
    );
    assert_eq!("=?utf8?Q?a_b=3F=5F=3D?=", res[0].as_str());
}

#[test]
fn empty_text_is_one_empty_word() {
    let res = EncodedWord::encode_word("", EncodedWordEncoding::Base64, EncodedWordContext::Text);
    assert_eq!(1, res.len());
    assert_eq!("=?utf8?B??=", res[0].as_str());
    assert_eq!("", res[0].decode_word().unwrap());
}

#[test]
fn long_text_is_split_into_valid_words() {
    let text = "Ünïcödé text that is far too long to fit into one encoded word, ".repeat(4);
    for enc in [EncodedWordEncoding::Base64, EncodedWordEncoding::QuotedPrintable].iter() {
        let words = EncodedWord::encode_word(&text, *enc, EncodedWordContext::Text);
        assert!(words.len() > 1);
        let mut joined = String::new();
        let prefix = match enc {
            EncodedWordEncoding::Base64 => "=?utf8?B?",
            EncodedWordEncoding::QuotedPrintable => "=?utf8?Q?",
        };
        for w in words.iter() {
            assert!(w.as_str().len() <= 75);
            assert!(w.as_str().starts_with(prefix) && w.as_str().ends_with("?="));
            assert!(EncodedWord::parse(w.as_str().to_string(), EncodedWordContext::Text).is_ok());
            joined.push_str(&w.decode_word().unwrap());
        }
        assert_eq!(text, joined);
    }
}

#[test]
fn largest_single_word() {
    let text = "x".repeat(48);
    let words = EncodedWord::encode_word(&text, EncodedWordEncoding::Base64, EncodedWordContext::Text);
    assert_eq!(1, words.len());
    assert_eq!(75, words[0].as_str().len());
    let text = "x".repeat(49);
    let words = EncodedWord::encode_word(&text, EncodedWordEncoding::Base64, EncodedWordContext::Text);
    assert_eq!(2, words.len());
}

#[test]
fn write_into_appends_words() {
    let mut out = String::from("Subject: ");
    EncodedWord::write_into(&mut out, "täst", EncodedWordEncoding::QuotedPrintable, EncodedWordContext::Text);
    assert_eq!("Subject: =?utf8?Q?t=C3=A4st?=", out);
    let mut out = String::new();
    let long = "ä".repeat(20);
    EncodedWord::write_into(&mut out, &long, EncodedWordEncoding::QuotedPrintable, EncodedWordContext::Text);
    assert!(out.contains("?= =?utf8?Q?"));
}

#[test]
fn clone_keeps_the_word() {
    let w = parsed("=?utf8?Q?123?=");
    let c = w.clone();
    assert_eq!(w.as_str(), c.as_str());
    assert_eq!(w.context(), c.context());
}
