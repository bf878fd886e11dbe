use chat_relay::email::parse_email_from_string;

#[test]
fn test_parse_valid_email() {
    let invalid_emails: Vec<&str> = vec![
        "bla@uiae.de",
        "uiae@uae-uiüa.uiae",
        "brÜggemaünnn@uae.de",
        "brÜggemaünnn@ußae.de",
        "brÜggemÜaßünnn@uae.de",
        "brÜggemaün-%nn@u-.uaeae.de",
    ];

    for email in invalid_emails {
        match parse_email_from_string(email.to_string()) {
            Ok(parsed_email) => assert_eq!(parsed_email, email),
            Err(_) => panic!(
                "Valid email '{}' was incorrectly not identified as valid.",
                email
            ),
        }
    }
}

#[test]
fn rejects_malformed_addresses() {
    let invalid_emails: Vec<&str> = vec![
        "uae",
        "üötat@uae...de",
        "mail@domain....com",
        "1+ia@@@dom.ii.ain.com",
        "@domain.com",
        "mail@@domain.com",
        "user@domain",
        "user@domain.toolong",
        "user@domain.c",
        "user@.de",
        "user@domain.",
        "",
    ];

    for email in invalid_emails {
        assert!(
            parse_email_from_string(email.to_string()).is_err(),
            "Invalid email '{}' was incorrectly identified as not invalid.",
            email
        );
    }
}
