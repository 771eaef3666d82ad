use std::time::Duration;
use zzk::settings::{App, Cli, Format};

fn cli(hosts: &str, timeout: u64) -> Cli {
    Cli {
        format: Format::Table,
        zoo_hosts: hosts.to_string(),
        timeout,
        quiet: false,
        command: None,
    }
}

#[test]
fn default_host_list() {
    assert_eq!(cli("127.0.0.1:2181", 3000).get_zoo_hosts(), vec!["127.0.0.1:2181"]);
}

#[test]
fn hosts_are_split_and_trimmed() {
    assert_eq!(
        cli("a:2181, b:2182 ,c:2183", 3000).get_zoo_hosts(),
        vec!["a:2181", "b:2182", "c:2183"]
    );
}

#[test]
fn empty_pieces_are_kept() {
    assert_eq!(cli("", 3000).get_zoo_hosts(), vec![""]);
    assert_eq!(cli("a,,b,", 3000).get_zoo_hosts(), vec!["a", "", "b", ""]);
}

#[test]
fn timeout_in_milliseconds() {
    assert_eq!(cli("h:1", 3000).get_timeout(), Duration::from_millis(3000));
    assert_eq!(cli("h:1", 0).get_timeout(), Duration::ZERO);
}

#[test]
fn app_over_settings() {
    let c = cli("h:1", 10);
    let app = App::new(&c);
    assert_eq!(app.cli.timeout, 10);
    assert_eq!(app.cli.format, Format::Table);
}
