use ctfzone_api::auth::{Credential, CurrentUser};
use ctfzone_api::config::ObjectStorageConfig;
use ctfzone_api::error::ErrorKind;
use ctfzone_api::exports::{
    archive_filename, archive_files, build_archive, csv_bytes, csv_filename, csv_value,
    default_export_type, load_table, raw, safe_download_name, Cell, ExportPlan, TableDocument,
};
use ctfzone_api::files::{
    authorize_download, checked_storage_path, download_name, file_checksum, file_record,
    file_select, file_type, parse_optional_id, safe_filename, safe_location, upload, upload_chunk, upload_field,
    upload_location, DownloadFacts, FileOwner, Upload, UploadTarget,
};
use ctfzone_api::json::{Json, Number};
use ctfzone_api::mail::{
    confirm_email, confirmation_hash, deliver_email, email_user, invalid_verification_token,
    mail_security, message_subject, new_verification_token, send_self_verification_email, token_of,
    verification_link,
    verification_message, verification_token_hash, ConfirmFacts, ConfirmStep, Delivery,
    MailSecurity, MailSettings, TokenHistory, VerificationFacts, VerificationRead,
    VerificationStep, VerificationTarget, VerificationToken,
};
use ctfzone_api::moment::Moment;
use ctfzone_api::numbers::{natural_to_text, parse_i32, parse_i64, parse_u64, to_text};
use ctfzone_api::object_storage::{safe_header_filename, ObjectStorage};

fn user(user_type: &str, team_id: Option<i32>) -> CurrentUser {
    CurrentUser {
        id: 7,
        name: Some("ada".to_owned()),
        email: Some("ada@example.org".to_owned()),
        user_type: user_type.to_owned(),
        team_id,
        verified: true,
        credential: Credential::ApiToken { token_id: 1, label: "cli".to_owned() },
        request_ip: "10.0.0.1".to_owned(),
        ip_changed: false,
    }
}

const NOW: u64 = 1_700_000_000;

#[test]
fn verification_tokens_are_canonical_random_url_safe_values() {
    assert_eq!(token_of(&[0; 32]), "A".repeat(43));
    assert_eq!(token_of(&[255; 32]), format!("{}8", "_".repeat(42)));
    let hash = confirmation_hash(&format!(" {} ", "A".repeat(43)));
    assert_eq!(hash, verification_token_hash(&"A".repeat(43)));
    assert!(hash.is_some() && confirmation_hash("AAAA").is_none());
    let first = new_verification_token();
    let second = new_verification_token();
    assert_eq!(first.len(), 43);
    assert_ne!(first, second);
    assert!(verification_token_hash(&first).is_some());
    assert!(!first
        .chars()
        .any(|character| matches!(character, '/' | '+' | '=')));
    assert!(verification_token_hash("").is_none());
    assert!(verification_token_hash(&format!("{first}=")).is_none());
    assert!(verification_token_hash(&"*".repeat(43)).is_none());
}

#[test]
fn verification_hash_never_contains_the_bearer_token() {
    let token = "AAAAAAAAAAAAAAAAAAAAAAAAAAAAAAAAAAAAAAAAAAA";
    let hash = verification_token_hash(token).unwrap();
    assert_eq!(hash.len(), 32);
    assert_ne!(hash, token.as_bytes());
    assert_eq!(hash, verification_token_hash(token).unwrap());
}

#[test]
fn tokens_are_stored_by_their_digest() {
    let hash = verification_token_hash(&"A".repeat(43)).unwrap();
    assert_eq!(
        hex::encode(hash),
        "0f007385b6f9d4b7eeb2748605afe1a984a0a3bfa3f014d09e2a784ce9e5cd1a"
    );
}

#[test]
fn verification_link_uses_a_fragment_not_a_query() {
    let link = verification_link(
        "https://ctf.example.org/",
        "AAAAAAAAAAAAAAAAAAAAAAAAAAAAAAAAAAAAAAAAAAA",
    );
    assert_eq!(
        link,
        "https://ctf.example.org/confirm#AAAAAAAAAAAAAAAAAAAAAAAAAAAAAAAAAAAAAAAAAAA"
    );
    assert!(!link.contains('?'));
}

fn verification_facts() -> VerificationFacts {
    VerificationFacts {
        user_rate: Some(true),
        ip_rate: Some(true),
        target: Some(Some(VerificationTarget {
            email: Some("ada@example.org".to_owned()),
            verified: false,
        })),
        history: Some(TokenHistory {
            last_created: None,
            user_hour_count: 0,
            ip_hour_count: 0,
        }),
        now: Moment { seconds: 10_000, nanos: 0 },
    }
}

#[test]
fn verification_messages_are_sent_now_and_then() {
    assert!(matches!(
        send_self_verification_email(&verification_facts()),
        Ok(VerificationStep::Send { recipient }) if recipient == "ada@example.org"
    ));
    let mut facts = verification_facts();
    facts.user_rate = None;
    assert!(matches!(
        send_self_verification_email(&facts),
        Ok(VerificationStep::Read(VerificationRead::UserRate { limit: 10, seconds: 60 }))
    ));
    let mut facts = verification_facts();
    facts.history = Some(TokenHistory {
        last_created: Some(Moment { seconds: 9_990, nanos: 0 }),
        user_hour_count: 1,
        ip_hour_count: 1,
    });
    assert_eq!(
        send_self_verification_email(&facts).err().unwrap().kind,
        ErrorKind::TooManyRequests
    );
    let mut facts = verification_facts();
    facts.target = Some(Some(VerificationTarget {
        email: Some("ada@example.org".to_owned()),
        verified: true,
    }));
    assert_eq!(
        send_self_verification_email(&facts).err().unwrap().kind,
        ErrorKind::Conflict
    );
    let (subject, body) = verification_message(None, Some("Finals"), "https://x/confirm#t", 1800);
    assert_eq!(subject, "Verify your email for Finals");
    assert!(body.contains("https://x/confirm#t") && body.contains("30 minutes"));
}

#[test]
fn addresses_are_confirmed_once() {
    let token = "AAAAAAAAAAAAAAAAAAAAAAAAAAAAAAAAAAAAAAAAAAA";
    let mut facts = ConfirmFacts {
        within_rate: Some(true),
        owner: Some(Some(7)),
        current_email: Some(Some("ada@example.org".to_owned())),
        token: Some(Some(VerificationToken {
            user_id: 7,
            email: "ada@example.org".to_owned(),
            used: false,
            invalidated: false,
        })),
        consumed: None,
        promoted: None,
    };
    assert!(matches!(confirm_email(token, &facts), Ok(ConfirmStep::Consume)));
    facts.consumed = Some(true);
    facts.promoted = Some(1);
    assert!(matches!(confirm_email(token, &facts), Ok(ConfirmStep::Commit { owner: 7 })));
    facts.promoted = Some(0);
    assert_eq!(
        confirm_email(token, &facts).err().unwrap().message,
        invalid_verification_token().message
    );
    facts.current_email = Some(Some("other@example.org".to_owned()));
    assert!(confirm_email(token, &facts).is_err());
    assert!(confirm_email("short", &facts).is_err());
    for (used, invalidated) in [(true, false), (false, true), (true, true)] {
        facts.current_email = Some(Some("ada@example.org".to_owned()));
        facts.token = Some(Some(VerificationToken {
            user_id: 7,
            email: "ada@example.org".to_owned(),
            used,
            invalidated,
        }));
        facts.consumed = None;
        facts.promoted = None;
        assert_eq!(
            confirm_email(token, &facts).err().unwrap().message,
            "This verification link is invalid or has expired"
        );
    }
}

fn mail_settings(provider: &str) -> MailSettings {
    MailSettings {
        sender: Some("ctf@example.org".to_owned()),
        provider: Some(provider.to_owned()),
        mailgun_base_url: Some("https://api.mailgun.example/v3/event/".to_owned()),
        mailgun_api_key: Some("key".to_owned()),
        server: Some("smtp.example.org".to_owned()),
        port: Some("2525".to_owned()),
    }
}

#[test]
fn mail_goes_by_the_configured_way() {
    match deliver_email(&mail_settings("auto")) {
        Ok(Delivery::Mailgun { sender, url, key }) => {
            assert_eq!(sender, "ctf@example.org");
            assert_eq!(url, "https://api.mailgun.example/v3/event/messages");
            assert_eq!(key, "key");
        }
        _ => panic!("mailgun delivers"),
    }
    assert!(matches!(
        deliver_email(&mail_settings("smtp")),
        Ok(Delivery::Smtp { port: 2525, .. })
    ));
    assert_eq!(
        deliver_email(&mail_settings("disabled")).err().unwrap().message,
        "Email delivery is disabled"
    );
    let mut settings = mail_settings("smtp");
    settings.server = None;
    assert!(deliver_email(&settings).is_err());
    assert!(matches!(mail_security(Some("true"), None), Ok(MailSecurity::ImplicitTls)));
    assert!(matches!(mail_security(None, Some("on")), Ok(MailSecurity::StartTls)));
    assert!(matches!(mail_security(None, None), Ok(MailSecurity::Plain)));
    assert!(mail_security(Some("1"), Some("1")).is_err());
    assert_eq!(message_subject(None, Some("Finals")), "Message from Finals");
    let admin = user("admin", None);
    assert_eq!(
        email_user(&admin, true, " hi ", Some("ada@example.org")).unwrap(),
        ("ada@example.org".to_owned(), "hi".to_owned())
    );
    assert!(email_user(&admin, true, "  ", Some("ada@example.org")).is_err());
    assert!(email_user(&admin, false, "hi", Some("ada@example.org")).is_err());
    assert!(email_user(&admin, true, "hi", None).is_err());
}

fn storage() -> ObjectStorage {
    ObjectStorage::new(&ObjectStorageConfig {
        access_key: "access".to_owned(),
        bucket: "ctfzone".to_owned(),
        internal_url: "http://storage:8333".to_owned(),
        max_upload_bytes: 512 * 1024 * 1024,
        max_pending_bytes_per_principal: 1024 * 1024 * 1024,
        max_pending_objects_per_principal: 8,
        max_retained_bytes_per_principal: 10 * 1024 * 1024 * 1024,
        max_uploads_per_hour_per_principal: 60,
        presign_ttl_seconds: 900,
        public_url: "https://files.example.test".to_owned(),
        region: "us-east-1".to_owned(),
        secret_key: "secret".to_owned(),
    })
    .ok()
    .unwrap()
}

#[test]
fn public_put_is_scoped_and_does_not_disclose_the_secret() {
    let checksum = "a".repeat(64);
    let (url, checksum_header) = storage()
        .put_url("uploads/abc", "text/plain", 5, &checksum, 900, NOW)
        .unwrap();
    let url = url.unwrap();
    assert!(url.starts_with("https://files.example.test/ctfzone/uploads/abc?"));
    assert!(url.contains("X-Amz-Expires=900"));
    assert!(url.contains(
        "X-Amz-SignedHeaders=content-length%3Bcontent-type%3Bhost%3Bx-amz-checksum-sha256"
    ));
    assert_eq!(
        checksum_header,
        "qqqqqqqqqqqqqqqqqqqqqqqqqqqqqqqqqqqqqqqqqqo="
    );
    assert!(!url.contains("secret"));
}

#[test]
fn server_side_copy_is_bound_to_source_and_destination() {
    let (url, source) =
        storage().internal_copy_request("uploads/abc", "challenge/abc/file.txt", NOW);
    let url = url.unwrap();
    assert_eq!(source, "/ctfzone/uploads/abc");
    assert!(url.starts_with("http://storage:8333/ctfzone/challenge/abc/file.txt?"));
    assert!(url.contains("X-Amz-SignedHeaders=host%3Bx-amz-copy-source"));
}

#[test]
fn download_filename_cannot_inject_a_response_header() {
    let url = storage()
        .get_url("result/abc", "x\"; inline\r\nX-Evil: 1", "text/plain", NOW)
        .unwrap();
    assert!(!url.contains("X-Evil"));
    assert!(url.contains("response-content-disposition="));
}

#[test]
fn category_icon_grant_is_inline_and_immutable() {
    let url = storage()
        .inline_image_url("objects/category_icon/icon.svg", "image/svg+xml", NOW)
        .unwrap();
    assert!(url.contains("response-content-disposition=inline"));
    assert!(url.contains("response-content-type=image%2Fsvg%2Bxml"));
    assert!(url.contains("immutable"));
    assert!(!url.contains("attachment"));
}

#[test]
fn stores_are_asked_at_their_internal_address() {
    let head = storage().internal_head_url("a/b", NOW).unwrap();
    assert!(head.starts_with("http://storage:8333/ctfzone/a/b?"));
    let get = storage().internal_get_url("a/b", NOW).unwrap();
    assert_ne!(head, get);
    assert!(storage().internal_bucket_head_url(NOW).unwrap().contains("/ctfzone"));
    assert_eq!(storage().bucket_name(), "ctfzone");
    assert!(storage().put_url("a", "b", 1, "zz", 900, NOW).is_err());
    assert_eq!(safe_header_filename("a\"b.txt"), "a_b.txt");
}

#[test]
fn uploads_have_one_target() {
    let empty = || Upload {
        challenge_id: None,
        page_id: None,
        solution_id: None,
        location: None,
        files: 0,
    };
    let form = upload_field(empty(), "challenge_id", "4").ok().unwrap();
    assert!(upload(&form).is_err());
    let one = Upload { files: 1, ..form };
    assert!(matches!(upload(&one), Ok(UploadTarget::Challenge(4))));
    assert_eq!(upload_location(&one, "abc", "x.txt"), "abc/x.txt");
    assert_eq!(file_checksum(b""), "da39a3ee5e6b4b0d3255bfef95601890afd80709");
    assert_eq!(file_checksum(b"abc"), "a9993e364706816aba3e25717850c26c9cd0d89d");
    let record = file_record(&one, UploadTarget::Page(3), "abc", "x.txt", b"abc");
    assert_eq!(record.file_type, "page");
    assert_eq!(record.location, "abc/x.txt");
    assert_eq!(record.sha1sum, "a9993e364706816aba3e25717850c26c9cd0d89d");
    assert_eq!((record.challenge_id, record.page_id, record.solution_id), (None, Some(3), None));
    let both = upload_field(one, "page", "5").ok().unwrap();
    assert!(upload(&both).is_err());
    assert!(upload_field(empty(), "page", "many").is_err());
    assert_eq!(file_type(UploadTarget::Page(1)), "page");
    assert_eq!(parse_optional_id(" ").unwrap(), None);
    assert_eq!(parse_optional_id("12").unwrap(), Some(12));
    assert!(parse_optional_id("x").is_err());
    assert_eq!(upload_chunk(10, 5).unwrap(), 15);
    assert!(upload_chunk(u64::MAX - 1, 5).is_err());
}

#[test]
fn paths_stay_below_their_root() {
    assert_eq!(safe_filename("/tmp/a b.txt").unwrap(), "a b.txt");
    assert_eq!(safe_filename("..").unwrap(), "upload.bin");
    assert!(safe_location("../x").is_err());
    assert_eq!(checked_storage_path("/var/uploads", "a/b.txt").unwrap(), "/var/uploads/a/b.txt");
    assert!(checked_storage_path("/var/uploads", "../b.txt").is_err());
    assert_eq!(download_name("a/b.txt"), "b.txt");
    assert!(file_select("WHERE id=$1").ends_with("WHERE id=$1"));
}

fn download_facts() -> DownloadFacts {
    DownloadFacts {
        challenge_state: Some("visible".to_owned()),
        challenge_visibility: Some("public".to_owned()),
        now: 100,
        start: None,
        end: None,
        view_after_ctf: None,
        page: Some((false, false, true)),
        solution_state: Some("solved".to_owned()),
        solved: false,
    }
}

#[test]
fn files_are_open_to_those_who_see_their_owner() {
    let player = user("user", None);
    let challenge = FileOwner { challenge_id: Some(1), page_id: None, solution_id: None };
    let page = FileOwner { challenge_id: None, page_id: Some(1), solution_id: None };
    let solution = FileOwner { challenge_id: None, page_id: None, solution_id: Some(1) };
    assert!(authorize_download(None, challenge, &download_facts()).is_ok());
    assert!(authorize_download(None, page, &download_facts()).is_err());
    assert!(authorize_download(Some(&player), page, &download_facts()).is_ok());
    assert!(authorize_download(Some(&player), solution, &download_facts()).is_err());
    let solved = DownloadFacts { solved: true, ..download_facts() };
    assert!(authorize_download(Some(&player), solution, &solved).is_ok());
    assert!(authorize_download(Some(&user("admin", None)), solution, &download_facts()).is_ok());
}

fn cell(column: &str, value: Json, compact: &str) -> Cell {
    Cell { column: column.to_owned(), value, compact: compact.to_owned() }
}

#[test]
fn tables_are_exported() {
    let admin = user("admin", None);
    assert_eq!(default_export_type(), "_");
    assert!(matches!(raw(&admin, true, "_", None), Ok(ExportPlan::Archive)));
    assert!(matches!(
        raw(&admin, true, "csv", Some("users")),
        Ok(ExportPlan::Csv { table }) if table == "users"
    ));
    assert!(raw(&admin, true, "csv", None).is_err());
    assert!(raw(&admin, true, "pdf", None).is_err());
    assert!(raw(&admin, false, "zip", None).is_err());
    assert!(load_table("users", 3).unwrap().contains("ctfzone.\"users\""));
    assert!(load_table("users; --", 3).is_err());
    assert!(load_table("users", 0).is_err());
    assert_eq!(safe_download_name("My CTF"), "My_CTF");
    assert_eq!(csv_filename("CTFZone", "users", "now"), "CTFZone-users-now.csv");
    assert_eq!(archive_filename("CTFZone", "now"), "CTFZone.now.zip");
}

#[test]
fn exports_are_written_as_csv_and_archives() {
    let columns = vec!["id".to_owned(), "name".to_owned()];
    let seven = Json::Number(Number { text: "7".to_owned(), integer: Some(7) });
    let cells = vec![
        cell("id", seven, "7"),
        cell("name", Json::Text("a,b \"c\"".to_owned()), "\"a,b\""),
    ];
    assert_eq!(csv_value(&cells, "id"), "7");
    assert_eq!(csv_value(&cells, "missing"), "");
    let document = csv_bytes(&columns, &vec![Some(cells)]).unwrap();
    assert_eq!(document, b"id,name\n7,\"a,b \"\"c\"\"\"\n");
    let tables = vec![TableDocument { table: "users".to_owned(), document }];
    let files = archive_files(&tables);
    assert!(files.iter().any(|file| file.name.contains("users")));
    let archive = build_archive(&tables).unwrap();
    assert_eq!(build_archive(&tables).unwrap(), archive);
    let mut read = zip::ZipArchive::new(std::io::Cursor::new(archive)).unwrap();
    assert_eq!(read.len(), files.len());
    let mut content = Vec::new();
    std::io::Read::read_to_end(&mut read.by_index(0).unwrap(), &mut content).unwrap();
    assert_eq!(content, files[0].content);
}

#[test]
fn numbers_are_read_and_written() {
    assert_eq!(parse_i32("+7"), Some(7));
    assert_eq!(parse_i32("2147483648"), None);
    assert_eq!(parse_i64("-9223372036854775808"), Some(i64::MIN));
    assert_eq!(parse_i64(""), None);
    assert_eq!(parse_u64("-1"), None);
    assert_eq!(to_text(-120), "-120");
    assert_eq!(to_text(i64::MIN), "-9223372036854775808");
    assert_eq!(natural_to_text(0), "0");
}
