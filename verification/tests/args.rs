use cloudflare_ddns_update::args::{parse_args, usage, Args, ArgsError, Opt};
use cloudflare_ddns_update::reconcile::Settings;

fn argv(items: &[&str]) -> Vec<String> {
    items.iter().map(|s| s.to_string()).collect()
}

#[test]
fn token_leading_dash() {
    let actual = parse_args(&argv(&[
        "app",
        "--auth-token",
        "-AT",
        "--zone-id",
        "ZID",
        "--record-name",
        "RN",
    ]));
    let expected = Args {
        auth_token: "-AT".to_owned(),
        zone_id: "ZID".to_owned(),
        record_name: "RN".to_owned(),
        verbose: false,
    };
    assert_eq!(actual, Ok(expected))
}

#[test]
fn options_in_any_order() {
    let actual = parse_args(&argv(&[
        "app",
        "--record-name",
        "home.example.com",
        "-v",
        "--zone-id",
        "Z1",
        "--auth-token",
        "secret",
    ]));
    let expected = Args {
        auth_token: "secret".to_owned(),
        zone_id: "Z1".to_owned(),
        record_name: "home.example.com".to_owned(),
        verbose: true,
    };
    assert_eq!(actual, Ok(expected));
}

#[test]
fn verbose_long_form() {
    let actual = parse_args(&argv(&[
        "app",
        "--verbose",
        "--auth-token",
        "T",
        "--zone-id",
        "Z",
        "--record-name",
        "R",
    ]))
    .unwrap();
    assert!(actual.verbose);
}

#[test]
fn value_that_looks_like_an_option_is_still_a_value() {
    let actual = parse_args(&argv(&[
        "app",
        "--auth-token",
        "--zone-id",
        "--zone-id",
        "-v",
        "--record-name",
        "--verbose",
    ]));
    let expected = Args {
        auth_token: "--zone-id".to_owned(),
        zone_id: "-v".to_owned(),
        record_name: "--verbose".to_owned(),
        verbose: false,
    };
    assert_eq!(actual, Ok(expected));
}

#[test]
fn empty_value_is_a_value() {
    let actual = parse_args(&argv(&[
        "app",
        "--auth-token",
        "",
        "--zone-id",
        "Z",
        "--record-name",
        "R",
    ]))
    .unwrap();
    assert_eq!(actual.auth_token, "");
}

#[test]
fn no_arguments_is_refused() {
    assert_eq!(parse_args(&argv(&["app"])), Err(ArgsError::NoArguments));
    assert_eq!(parse_args(&argv(&[])), Err(ArgsError::NoArguments));
}

#[test]
fn option_without_value_is_refused() {
    let actual = parse_args(&argv(&["app", "--auth-token", "T", "--zone-id"]));
    assert_eq!(actual, Err(ArgsError::MissingValue(Opt::ZoneId)));
}

#[test]
fn repeated_option_is_refused() {
    let actual = parse_args(&argv(&[
        "app",
        "--auth-token",
        "T",
        "--auth-token",
        "U",
        "--zone-id",
        "Z",
        "--record-name",
        "R",
    ]));
    assert_eq!(actual, Err(ArgsError::Repeated(Opt::AuthToken)));
}

#[test]
fn repeated_flag_is_refused() {
    let actual = parse_args(&argv(&["app", "-v", "--verbose"]));
    assert_eq!(actual, Err(ArgsError::RepeatedVerbose));
}

#[test]
fn unknown_argument_is_refused() {
    let actual = parse_args(&argv(&["app", "--auth-token", "T", "extra"]));
    assert_eq!(actual, Err(ArgsError::Unexpected("extra".to_owned())));
    let joined = parse_args(&argv(&["app", "--auth-token=T"]));
    assert_eq!(joined, Err(ArgsError::Unexpected("--auth-token=T".to_owned())));
}

#[test]
fn missing_options_are_named_in_order() {
    assert_eq!(
        parse_args(&argv(&["app", "-v"])),
        Err(ArgsError::MissingOption(Opt::AuthToken))
    );
    assert_eq!(
        parse_args(&argv(&["app", "--auth-token", "T"])),
        Err(ArgsError::MissingOption(Opt::ZoneId))
    );
    assert_eq!(
        parse_args(&argv(&["app", "--zone-id", "Z", "--auth-token", "T"])),
        Err(ArgsError::MissingOption(Opt::RecordName))
    );
}

#[test]
fn error_messages() {
    assert_eq!(ArgsError::NoArguments.message(), "no arguments were given");
    assert_eq!(
        ArgsError::MissingValue(Opt::AuthToken).message(),
        "no value was given for --auth-token"
    );
    assert_eq!(
        ArgsError::Repeated(Opt::ZoneId).message(),
        "--zone-id was given more than once"
    );
    assert_eq!(
        ArgsError::RepeatedVerbose.message(),
        "--verbose was given more than once"
    );
    assert_eq!(
        ArgsError::Unexpected("x y".to_owned()).message(),
        "unexpected argument: x y"
    );
    assert_eq!(
        ArgsError::MissingOption(Opt::RecordName).message(),
        "--record-name is required"
    );
}

#[test]
fn option_names() {
    assert_eq!(Opt::AuthToken.flag(), "--auth-token");
    assert_eq!(Opt::ZoneId.flag(), "--zone-id");
    assert_eq!(Opt::RecordName.flag(), "--record-name");
}

#[test]
fn usage_names_the_program_and_every_option() {
    assert_eq!(
        usage("cloudflare-ddns-update"),
        "Usage: cloudflare-ddns-update --auth-token <auth-token> --zone-id <zone-id> \
         --record-name <record-name> [-v|--verbose]"
    );
}

#[test]
fn token_is_parted_from_the_settings() {
    let args = Args {
        auth_token: "secret-token".to_owned(),
        zone_id: "Z1".to_owned(),
        record_name: "home.example.com".to_owned(),
        verbose: true,
    };
    let (token, settings) = args.into_parts();
    assert_eq!(token, "secret-token");
    assert_eq!(
        settings,
        Settings {
            zone_id: "Z1".to_owned(),
            record_name: "home.example.com".to_owned(),
            verbose: true,
        }
    );
}
