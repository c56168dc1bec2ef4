use audire::detection::{event_start, in_prompt_window, prompt_candidates};
use audire::calendar::{
    normalize_provider, oauth_callback, parse_query, percent_decode, query_param,
};
use audire::calendar_events::{
    map_google_event, map_microsoft_event, provider_status, sort_events, CalendarAccountRow, GoogleAttendee, GoogleDateTime,
    GoogleEvent, GoogleOrganizer, MicrosoftEmailAddress, MicrosoftEvent,
};
use audire::error::ParaError;
use audire::oauth::{
    disconnect_names, generate_code_verifier, generate_pkce_challenge, google_auth_url, google_token_params,
    microsoft_refresh_params, microsoft_token_url, plan_provider_config, redirect_uri, refreshed_bundle, token_expiry,
    token_is_fresh, CalendarTokenBundle, SecretWrite,
};

fn s(x: &str) -> String {
    x.to_string()
}

#[test]
fn providers() {
    assert_eq!(normalize_provider("google").ok(), Some(s("google")));
    match normalize_provider("yahoo") {
        Err(ParaError::InvalidState(m)) => assert_eq!(m, "unsupported calendar provider: yahoo"),
        _ => panic!("unsupported"),
    }
}

#[test]
fn percent_decoding() {
    assert_eq!(percent_decode("a+b%20c%41"), "a b cA");
    assert_eq!(percent_decode("100%"), "100%");
    assert_eq!(percent_decode("%zz"), "%zz");
    assert_eq!(percent_decode("%+5x"), "\u{5}x");
    assert_eq!(percent_decode("%+f"), "\u{f}");
    assert_eq!(percent_decode("%-5x"), "%-5x");
    assert_eq!(percent_decode("%++5"), "%  5");
    assert_eq!(percent_decode("%C3%A9"), "é");
    assert_eq!(percent_decode("%FF"), "\u{FFFD}");
    assert_eq!(percent_decode("%41é"), "Aé");
    assert_eq!(percent_decode("%aé"), "%aé");
    assert_eq!(percent_decode("%e9"), "\u{fffd}");
}

#[test]
fn query_parsing_keeps_the_last_value() {
    let pairs = parse_query("code=abc&&state=x%20y&flag&state=z");
    assert_eq!(pairs.len(), 4);
    assert_eq!(pairs[2], (s("flag"), s("")));
    assert_eq!(query_param(&pairs, "state"), Some(s("z")));
    assert_eq!(query_param(&pairs, "code"), Some(s("abc")));
    assert_eq!(query_param(&pairs, "missing"), None);
}

#[test]
fn oauth_callback_outcomes() {
    let ok = oauth_callback("GET /google/callback?state=s1&code=c0de HTTP/1.1\r\nHost: x\r\n\r\n", "s1");
    assert_eq!(ok.result.ok(), Some(s("c0de")));
    assert!(ok.response.unwrap().contains("You can close this window and return to Audire."));

    let denied = oauth_callback("GET /cb?error=access_denied&state=s1 HTTP/1.1\r\n", "s1");
    assert!(denied.response.unwrap().contains("Authentication failed: access_denied"));
    match denied.result {
        Err(ParaError::Other(m)) => assert_eq!(m, "oauth failed: access_denied"),
        _ => panic!("error"),
    }

    match oauth_callback("GET /cb?state=other&code=c HTTP/1.1", "s1").result {
        Err(ParaError::Other(m)) => assert_eq!(m, "oauth callback state mismatch"),
        _ => panic!("mismatch"),
    }
    match oauth_callback("GET /cb?code=c HTTP/1.1", "s1").result {
        Err(ParaError::Other(m)) => assert_eq!(m, "oauth callback missing state"),
        _ => panic!("no state"),
    }
    match oauth_callback("GET /cb?state=s1 HTTP/1.1", "s1").result {
        Err(ParaError::Other(m)) => assert_eq!(m, "oauth callback missing code"),
        _ => panic!("no code"),
    }
    let no_path = oauth_callback("GET", "s1");
    assert!(no_path.response.is_none());
    match no_path.result {
        Err(ParaError::Other(m)) => assert_eq!(m, "oauth callback missing path"),
        _ => panic!("no path"),
    }
    match oauth_callback("", "s1").result {
        Err(ParaError::Other(m)) => assert_eq!(m, "oauth callback missing request line"),
        _ => panic!("empty"),
    }
    let weird = oauth_callback("GET /cb?state=s&code=%aé HTTP/1.1", "s");
    assert_eq!(weird.result.ok(), Some("%aé".to_string()));
}

#[test]
fn sign_in_addresses() {
    let encoded = google_auth_url("a b/c~-._", "é", "", "");
    assert!(encoded.starts_with("https://accounts.google.com/o/oauth2/v2/auth?client_id=a%20b%2Fc~-._&redirect_uri=%C3%A9&"));
    assert_eq!(redirect_uri(5555, "google"), "http://127.0.0.1:5555/google/callback");
    let url = google_auth_url("id", "http://127.0.0.1:1/google/callback", "st", "ch");
    assert_eq!(
        url,
        "https://accounts.google.com/o/oauth2/v2/auth?client_id=id&redirect_uri=http%3A%2F%2F127.0.0.1%3A1%2Fgoogle%2Fcallback&response_type=code&scope=openid%20email%20profile%20https%3A%2F%2Fwww.googleapis.com%2Fauth%2Fcalendar.readonly&access_type=offline&prompt=consent&state=st&code_challenge=ch&code_challenge_method=S256"
    );
    assert_eq!(microsoft_token_url("common"), "https://login.microsoftonline.com/common/oauth2/v2.0/token");
}

#[test]
fn pkce() {
    // RFC 7636, appendix B.
    assert_eq!(
        generate_pkce_challenge("dBjftJeZ4CVP-mB92K27uhbUJU1p1r_wW1gFWFOEjXk"),
        "E9Melhoa2OwvFrEMTJguCHaoeK1t8URWbuGJSstw-cM"
    );
    let v = generate_code_verifier().unwrap();
    assert_eq!(v.len(), 43);
}

#[test]
fn token_requests_and_refresh() {
    let with_secret = google_token_params("id", "code", "ver", "uri", Some("sec"));
    assert_eq!(with_secret.len(), 6);
    assert_eq!(with_secret[5], (s("client_secret"), s("sec")));
    let blank_secret = google_token_params("id", "code", "ver", "uri", Some(""));
    assert_eq!(blank_secret.len(), 5);
    assert_eq!(blank_secret[3], (s("grant_type"), s("authorization_code")));
    let ms = microsoft_refresh_params("id", "rt");
    assert_eq!(ms[3].0, "scope");
    assert!(token_is_fresh(100, 69));
    assert!(!token_is_fresh(100, 70));
    assert_eq!(token_expiry(1_000, 3_600), 4_570);
    assert_eq!(token_expiry(1_000, 10), 980);
    let old = CalendarTokenBundle { access_token: s("a"), refresh_token: Some(s("r")), expires_at: 1 };
    let b = refreshed_bundle(old, s("b"), 9, None);
    assert_eq!(b.refresh_token, Some(s("r")));
    assert_eq!(b.access_token, "b");
}

#[test]
fn saving_provider_settings() {
    match plan_provider_config("google", "   ", None, None) {
        Err(ParaError::InvalidState(m)) => assert_eq!(m, "client ID is required"),
        _ => panic!("id required"),
    }
    let writes = plan_provider_config("microsoft", " id ", None, None).ok().unwrap();
    assert_eq!(writes.len(), 3);
    match &writes[0] {
        SecretWrite::Put { name, value } => {
            assert_eq!(name, "calendar:microsoft:client_id");
            assert_eq!(value, "id");
        }
        _ => panic!("client id stored"),
    }
    assert!(matches!(&writes[1], SecretWrite::Delete { name } if name == "calendar:microsoft:client_secret"));
    match &writes[2] {
        SecretWrite::Put { name, value } => {
            assert_eq!(name, "calendar:microsoft:tenant_id");
            assert_eq!(value, "common");
        }
        _ => panic!("tenant stored"),
    }
    let google = plan_provider_config("google", "id", Some("  "), None).ok().unwrap();
    assert_eq!(google.len(), 1);
    assert_eq!(disconnect_names("microsoft").len(), 4);
    assert_eq!(disconnect_names("google")[0], "calendar:google:tokens");
}

#[test]
fn provider_events_become_rows() {
    let account = Some(s("me@x.com"));
    let ev = GoogleEvent {
        id: s("g1"),
        summary: None,
        location: Some(s("Room")),
        organizer: Some(GoogleOrganizer { email: Some(s("boss@x.com")), display_name: None }),
        attendees: Some(vec![
            GoogleAttendee { email: Some(s("me@x.com")), display_name: None, is_self: None },
            GoogleAttendee { email: Some(s("you@x.com")), display_name: Some(s("You")), is_self: Some(false) },
            GoogleAttendee { email: Some(s("self@x.com")), display_name: None, is_self: Some(true) },
            GoogleAttendee { email: None, display_name: Some(s("Nobody")), is_self: None },
        ]),
        start: GoogleDateTime { date_time: None, date: Some(s("2025-01-02")) },
        end: GoogleDateTime { date_time: None, date: None },
    };
    let row = map_google_event(ev, &account);
    assert_eq!(row.title, "Untitled event");
    assert_eq!(row.start, "2025-01-02");
    assert_eq!(row.end, "");
    assert_eq!(row.organizer, Some(s("boss@x.com")));
    assert_eq!(row.attendees.len(), 1);
    assert_eq!(row.attendees[0].email, "you@x.com");
    let ms = MicrosoftEvent {
        id: s("m1"),
        subject: Some(s("Sync")),
        location_name: Some(None),
        organizer: Some(Some(MicrosoftEmailAddress { name: Some(s("Boss")), address: Some(s("b@x.com")) })),
        attendees: Some(vec![None, Some(MicrosoftEmailAddress { name: None, address: Some(s("a@x.com")) })]),
        start: s("2025-01-01T09:00:00"),
        end: s("2025-01-01T10:00:00"),
    };
    let mrow = map_microsoft_event(ms, &None);
    assert_eq!(mrow.organizer, Some(s("Boss")));
    assert_eq!(mrow.location, None);
    assert_eq!(mrow.attendees.len(), 1);
    let sorted = sort_events(vec![row, mrow]);
    assert_eq!(sorted[0].external_id, "m1");
    assert_eq!(sorted[1].external_id, "g1");
}

#[test]
fn settings_screen_status() {
    let acct = CalendarAccountRow {
        provider: s("google"),
        email: Some(s("e@x.com")),
        display_name: None,
        connected_at: 1,
        updated_at: 2,
    };
    let st = provider_status("google", Some(&acct), true, false);
    assert!(!st.connected);
    assert_eq!(st.email, Some(s("e@x.com")));
    let st2 = provider_status("microsoft", None, false, true);
    assert!(!st2.connected);
    assert!(!st2.configured);
}

#[test]
fn detection_window() {
    assert_eq!(event_start("2025-01-01"), Some(1_735_689_600_000));
    assert_eq!(event_start("2025-01-01T09:00:00"), Some(1_735_722_000_000));
    assert_eq!(event_start("2025-01-01T09:00:00+01:00"), Some(1_735_718_400_000));
    assert_eq!(event_start("soon"), None);
    let start = 1_735_722_000_000i64;
    assert!(in_prompt_window("2025-01-01T09:00:00Z", start - 5 * 60_000, 10));
    assert!(!in_prompt_window("2025-01-01T09:00:00Z", start - 5 * 60_000, 4));
    assert!(in_prompt_window("2025-01-01T09:00:00Z", start, 0));
    assert!(!in_prompt_window("2025-01-01T09:00:00Z", start + 1, 10));
    let mk = |id: &str, start: &str| audire::calendar_events::UpcomingCalendarEventRow {
        provider: s("google"),
        account_email: None,
        external_id: s(id),
        title: s("t"),
        start: s(start),
        end: s(""),
        organizer: None,
        location: None,
        attendees: Vec::new(),
    };
    let events = vec![mk("a", "2025-01-01T08:00:00Z"), mk("b", "2025-01-01T09:03:00Z"), mk("c", "bad")];
    assert_eq!(prompt_candidates(&events, start, 5), vec![1]);
}

#[test]
fn url_encoded_text_decodes_back() {
    for s in ["plain", "a b+c&d=e", "100% ü/漢字?x=1", "", "~-._", "%zz%"] {
        let enc = urlencoding::encode(s).into_owned();
        assert_eq!(percent_decode(&enc), s);
    }
}
