use mini_jabber::{
    CodecError, Mechanism, Mechanisms, StartTls, StartTlsFailure, StartTlsProceed,
    StartTlsResponse, StreamFeatures, StreamHeader, StreamHeaderResponse,
};

fn sample_header() -> StreamHeader {
    StreamHeader {
        from: "zet@mail.com".to_string(),
        to: "su@mail.com".to_string(),
        version: "1.0".to_string(),
        xml_lang: "en".to_string(),
        xmlns: "jabber:client".to_string(),
        xmlns_stream: "http://etherx.jabber.org/streams".to_string(),
    }
}

#[test]
fn header_renders_exact_open_tag() {
    let rendered = sample_header().into_string();
    assert_eq!(
        rendered,
        "<stream:stream from=\"zet@mail.com\" to=\"su@mail.com\" version=\"1.0\" \
         xml:lang=\"en\" xmlns=\"jabber:client\" \
         xmlns:stream=\"http://etherx.jabber.org/streams\">"
    );
}

#[test]
fn header_round_trips() {
    let header = sample_header();
    let parsed = StreamHeader::from_string(&header.into_string()).unwrap();
    assert_eq!(parsed, sample_header());
}

#[test]
fn header_missing_version_is_rejected() {
    let input = "<stream:stream from=\"a\" to=\"b\" xml:lang=\"en\" xmlns=\"c\" \
                 xmlns:stream=\"d\">";
    let err = StreamHeader::from_string(input).unwrap_err();
    assert_eq!(err, CodecError::MissingAttribute("version".to_string()));
}

#[test]
fn header_wrong_root_is_rejected() {
    let err = StreamHeader::from_string("<foo>").unwrap_err();
    assert_eq!(
        err,
        CodecError::UnexpectedElement("stream:stream".to_string(), "foo".to_string())
    );
}

#[test]
fn header_unknown_attributes_are_ignored() {
    let input = "<stream:stream weird=\"x\" from=\"a\" to=\"b\" version=\"1.0\" \
                 xml:lang=\"en\" xmlns=\"c\" xmlns:stream=\"d\">";
    let parsed = StreamHeader::from_string(input).unwrap();
    assert_eq!(parsed.from, "a");
    assert_eq!(parsed.version, "1.0");
}

#[test]
fn into_response_keeps_fields_and_adds_id() {
    let response = sample_header().into_response("abc123".to_string());
    assert_eq!(response.id, "abc123");
    assert_eq!(response.from, "zet@mail.com");
    assert_eq!(response.to, "su@mail.com");
    assert_eq!(response.version, "1.0");
    assert_eq!(response.xml_lang, "en");
    assert_eq!(response.xmlns, "jabber:client");
    assert_eq!(response.xmlns_stream, "http://etherx.jabber.org/streams");
}

#[test]
fn response_renders_id_first_and_round_trips() {
    let response = sample_header().into_response("abc123".to_string());
    let rendered = response.into_string();
    assert!(rendered.starts_with("<stream:stream id=\"abc123\" from=\"zet@mail.com\""));
    let parsed = StreamHeaderResponse::from_string(&rendered).unwrap();
    assert_eq!(parsed, sample_header().into_response("abc123".to_string()));
}

#[test]
fn response_missing_id_is_rejected() {
    let err = StreamHeaderResponse::from_string(&sample_header().into_string()).unwrap_err();
    assert_eq!(err, CodecError::MissingAttribute("id".to_string()));
}

#[test]
fn empty_features_collapse_to_self_closing_tag() {
    let features = StreamFeatures { start_tls: None, mechanisms: None };
    assert_eq!(features.into_string(), "<stream:features/>");
    assert!(features.empty());
}

#[test]
fn rendering_twice_is_byte_identical() {
    let features = StreamFeatures {
        start_tls: Some(StartTls { xmlns: "urn:ietf:params:xml:ns:xmpp-tls".to_string(), required: true }),
        mechanisms: Some(Mechanisms {
            xmlns: "urn:ietf:params:xml:ns:xmpp-sasl".to_string(),
            mechanisms: vec![Mechanism("PLAIN".to_string())],
        }),
    };
    assert_eq!(features.into_string(), features.into_string());
}

#[test]
fn features_round_trip_empty() {
    let rendered = StreamFeatures { start_tls: None, mechanisms: None }.into_string();
    let parsed = StreamFeatures::from_string(&rendered).unwrap();
    assert_eq!(parsed, StreamFeatures { start_tls: None, mechanisms: None });
}

#[test]
fn features_round_trip_starttls_required() {
    let features = StreamFeatures {
        start_tls: Some(StartTls { xmlns: "tls-ns".to_string(), required: true }),
        mechanisms: None,
    };
    let rendered = features.into_string();
    assert_eq!(
        rendered,
        "<stream:features><starttls xmlns=\"tls-ns\"><required/></starttls></stream:features>"
    );
    let parsed = StreamFeatures::from_string(&rendered).unwrap();
    assert_eq!(parsed, features);
}

#[test]
fn features_round_trip_starttls_optional() {
    let features = StreamFeatures {
        start_tls: Some(StartTls { xmlns: "tls-ns".to_string(), required: false }),
        mechanisms: None,
    };
    let rendered = features.into_string();
    assert_eq!(rendered, "<stream:features><starttls xmlns=\"tls-ns\"/></stream:features>");
    let parsed = StreamFeatures::from_string(&rendered).unwrap();
    assert_eq!(parsed, features);
}

#[test]
fn features_round_trip_mechanisms_only() {
    let features = StreamFeatures {
        start_tls: None,
        mechanisms: Some(Mechanisms {
            xmlns: "sasl-ns".to_string(),
            mechanisms: vec![
                Mechanism("PLAIN".to_string()),
                Mechanism("SCRAM-SHA-1".to_string()),
            ],
        }),
    };
    let parsed = StreamFeatures::from_string(&features.into_string()).unwrap();
    assert_eq!(parsed, features);
}

#[test]
fn features_round_trip_both_children() {
    let features = StreamFeatures {
        start_tls: Some(StartTls { xmlns: "tls-ns".to_string(), required: false }),
        mechanisms: Some(Mechanisms {
            xmlns: "sasl-ns".to_string(),
            mechanisms: vec![
                Mechanism("PLAIN".to_string()),
                Mechanism("PLAIN".to_string()),
                Mechanism("EXTERNAL".to_string()),
            ],
        }),
    };
    let parsed = StreamFeatures::from_string(&features.into_string()).unwrap();
    assert_eq!(parsed, features);
}

#[test]
fn features_round_trip_zero_mechanisms() {
    let features = StreamFeatures {
        start_tls: None,
        mechanisms: Some(Mechanisms { xmlns: "sasl-ns".to_string(), mechanisms: vec![] }),
    };
    let rendered = features.into_string();
    assert_eq!(rendered, "<stream:features><mechanisms xmlns=\"sasl-ns\"></mechanisms></stream:features>");
    let parsed = StreamFeatures::from_string(&rendered).unwrap();
    assert_eq!(parsed, features);
}

#[test]
fn features_child_before_root_is_rejected() {
    let err = StreamFeatures::from_string("<starttls xmlns=\"a\"/>").unwrap_err();
    assert_eq!(err, CodecError::SequencingError("starttls".to_string()));
    let err = StreamFeatures::from_string("<mechanisms xmlns=\"a\"></mechanisms>").unwrap_err();
    assert_eq!(err, CodecError::SequencingError("mechanisms".to_string()));
}

#[test]
fn features_second_starttls_is_rejected() {
    let input = "<stream:features><starttls xmlns=\"a\"/><starttls xmlns=\"a\"/>\
                 </stream:features>";
    let err = StreamFeatures::from_string(input).unwrap_err();
    assert_eq!(err, CodecError::DuplicateElement("starttls".to_string()));
}

#[test]
fn features_starttls_without_xmlns_is_rejected() {
    let err = StreamFeatures::from_string("<stream:features><starttls/></stream:features>")
        .unwrap_err();
    assert_eq!(err, CodecError::MissingAttribute("xmlns".to_string()));
}

#[test]
fn features_malformed_fragment_is_rejected() {
    let err = StreamFeatures::from_string("<stream:features").unwrap_err();
    assert_eq!(err, CodecError::ParseFailure);
}

#[test]
fn features_exhausted_input_yields_empty() {
    let parsed = StreamFeatures::from_string("").unwrap();
    assert_eq!(parsed, StreamFeatures { start_tls: None, mechanisms: None });
}

#[test]
fn starttls_required_renders_required_child() {
    let starttls = StartTls { xmlns: "tls-ns".to_string(), required: true };
    let rendered = starttls.into_string();
    assert_eq!(rendered, "<starttls xmlns=\"tls-ns\"><required/></starttls>");
    let parsed = StartTls::from_string(&rendered).unwrap();
    assert_eq!(parsed, starttls);
}

#[test]
fn starttls_optional_renders_self_closing() {
    let starttls = StartTls { xmlns: "tls-ns".to_string(), required: false };
    let rendered = starttls.into_string();
    assert_eq!(rendered, "<starttls xmlns=\"tls-ns\"/>");
    let parsed = StartTls::from_string(&rendered).unwrap();
    assert_eq!(parsed, starttls);
}

#[test]
fn starttls_no_element_is_parse_failure() {
    let err = StartTls::from_string("").unwrap_err();
    assert_eq!(err, CodecError::ParseFailure);
}

#[test]
fn starttls_response_proceed() {
    let parsed = StartTlsResponse::from_string("<proceed/>").unwrap();
    assert!(matches!(parsed, StartTlsResponse::Proceed(_)));
}

#[test]
fn starttls_response_failure() {
    let parsed = StartTlsResponse::from_string("<failure/>").unwrap();
    assert!(matches!(parsed, StartTlsResponse::Failure(_)));
}

#[test]
fn starttls_response_bogus_is_invalid() {
    let err = StartTlsResponse::from_string("<bogus/>").unwrap_err();
    assert_eq!(err, CodecError::InvalidResponse);
}

#[test]
fn proceed_and_failure_render_empty_roots() {
    assert_eq!(StartTlsProceed().into_string(), "<proceed/>");
    assert_eq!(StartTlsFailure().into_string(), "<failure/>");
}

#[test]
fn mechanisms_preserve_order_and_duplicates() {
    let input = "<mechanisms xmlns=\"ns\"><mechanism>PLAIN</mechanism>\
                 <mechanism>SCRAM-SHA-1</mechanism></mechanisms>";
    let parsed = Mechanisms::from_string(input).unwrap();
    assert_eq!(parsed.xmlns, "ns");
    assert_eq!(
        parsed.mechanisms,
        vec![Mechanism("PLAIN".to_string()), Mechanism("SCRAM-SHA-1".to_string())]
    );

    let doubled = "<mechanisms xmlns=\"ns\"><mechanism>PLAIN</mechanism>\
                   <mechanism>PLAIN</mechanism></mechanisms>";
    let parsed = Mechanisms::from_string(doubled).unwrap();
    assert_eq!(
        parsed.mechanisms,
        vec![Mechanism("PLAIN".to_string()), Mechanism("PLAIN".to_string())]
    );
}

#[test]
fn mechanisms_render_and_round_trip() {
    let mechanisms = Mechanisms {
        xmlns: "ns".to_string(),
        mechanisms: vec![Mechanism("PLAIN".to_string()), Mechanism("SCRAM-SHA-1".to_string())],
    };
    let rendered = mechanisms.into_string();
    assert_eq!(
        rendered,
        "<mechanisms xmlns=\"ns\"><mechanism>PLAIN</mechanism>\
         <mechanism>SCRAM-SHA-1</mechanism></mechanisms>"
    );
    let parsed = Mechanisms::from_string(&rendered).unwrap();
    assert_eq!(parsed, mechanisms);
}

#[test]
fn attribute_values_are_escaped_on_render() {
    let starttls = StartTls { xmlns: "a&b".to_string(), required: false };
    assert_eq!(starttls.into_string(), "<starttls xmlns=\"a&amp;b\"/>");
    let header = StreamHeader {
        from: "a<b".to_string(),
        to: "c\"d".to_string(),
        version: "1.0".to_string(),
        xml_lang: "en".to_string(),
        xmlns: "x".to_string(),
        xmlns_stream: "y".to_string(),
    };
    let rendered = header.into_string();
    assert!(rendered.contains("from=\"a&lt;b\""));
    assert!(rendered.contains("to=\"c&quot;d\""));
}

#[test]
fn text_content_is_escaped_on_render() {
    let mechanisms = Mechanisms {
        xmlns: "ns".to_string(),
        mechanisms: vec![Mechanism("A&B".to_string())],
    };
    assert_eq!(
        mechanisms.into_string(),
        "<mechanisms xmlns=\"ns\"><mechanism>A&amp;B</mechanism></mechanisms>"
    );
}
