use ddns4cf::error::Error;

#[test]
fn fixed_and_prebuilt_reasons() {
    assert_eq!(Error::new_str("out of luck").message(), "out of luck");
    assert_eq!(
        Error::new_string(String::from("made earlier")).message(),
        "made earlier"
    );
}

#[test]
fn uninitialized_text() {
    assert_eq!(
        Error::uninitialized().message(),
        "Updater \u{672a}\u{521d}\u{59cb}\u{5316}"
    );
}

#[test]
fn configuration_failure_text() {
    assert_eq!(
        Error::read_configuration_failure("no such file").message(),
        "\u{914d}\u{7f6e}\u{6587}\u{4ef6}\u{8bfb}\u{53d6}\u{5931}\u{8d25}\u{ff1a}no such file"
    );
}

#[test]
fn network_failure_text() {
    assert_eq!(
        Error::cloudflare_network_failure("connection refused").message(),
        "\u{8bbf}\u{95ee} Cloudflare \u{5931}\u{8d25}\u{ff0c}\u{8bf7}\u{786e}\u{8ba4}\u{7f51}\u{7edc}\u{8fde}\u{63a5}\u{6b63}\u{5e38}\u{ff0c}\u{9519}\u{8bef}\u{539f}\u{56e0}\u{ff1a}connection refused"
    );
}

#[test]
fn record_failure_text() {
    assert_eq!(
        Error::cloudflare_record_failure(Some(String::from("no such zone"))).message(),
        "\u{83b7}\u{53d6} Cloudflare DNS \u{8bb0}\u{5f55}\u{8be6}\u{60c5}\u{5931}\u{8d25}\u{ff0c}\u{9519}\u{8bef}\u{539f}\u{56e0}\u{ff1a}no such zone"
    );
    assert_eq!(
        Error::cloudflare_record_failure(None).message(),
        "\u{83b7}\u{53d6} Cloudflare DNS \u{8bb0}\u{5f55}\u{8be6}\u{60c5}\u{5931}\u{8d25}\u{ff0c}\u{9519}\u{8bef}\u{539f}\u{56e0}\u{ff1a}\u{672a}\u{77e5}\u{539f}\u{56e0}"
    );
}

#[test]
fn update_failure_text() {
    assert_eq!(
        Error::cloudflare_update_failure(Some(String::from("forbidden"))).message(),
        "\u{66f4}\u{65b0} Cloudflare DNS \u{8bb0}\u{5f55}\u{5931}\u{8d25}\u{3002}\u{9519}\u{8bef}\u{539f}\u{56e0}\u{ff1a}forbidden"
    );
    assert_eq!(
        Error::cloudflare_update_failure(None).message(),
        "\u{66f4}\u{65b0} Cloudflare DNS \u{8bb0}\u{5f55}\u{5931}\u{8d25}\u{3002}\u{9519}\u{8bef}\u{539f}\u{56e0}\u{ff1a}\u{672a}\u{77e5}\u{539f}\u{56e0}"
    );
}

#[test]
fn deserialize_failure_text() {
    assert_eq!(
        Error::cloudflare_deserialized_failure("bad json").message(),
        "\u{89e3}\u{6790} Cloudflare \u{54cd}\u{5e94}\u{65f6}\u{51fa}\u{73b0}\u{9519}\u{8bef}\u{ff0c}\u{9519}\u{8bef}\u{539f}\u{56e0}\u{ff1a}bad json"
    );
}
