use snd_core::config::{Config, Server};
use snd_core::output::{BuffWrapper, Output};

#[test]
fn buff_wrapper_holds_the_latest_value() {
    let mut b = BuffWrapper::new("start".to_string());
    assert_eq!(b.get(), "start");
    b.set("next".to_string());
    assert_eq!(b.get(), "next");
}

#[test]
fn output_panel_reads_and_writes_by_index() {
    let mut o = Output::new();
    assert_eq!(o.get(0), Some(&String::new()));
    assert_eq!(o.get(4), Some(&String::new()));
    assert_eq!(o.get(5), None);
    o.set(1, "hello".to_string());
    assert_eq!(o.get(1), Some(&"hello".to_string()));
    // out-of-range writes are ignored
    o.set(9, "lost".to_string());
    assert_eq!(o.get(9), None);
    o.append(1, " world");
    assert_eq!(o.get(1), Some(&"hello world".to_string()));
    o.append(9, "lost");
    assert_eq!(o.get(0), Some(&String::new()));
}

#[test]
fn output_one_clears_everything_but_the_middle_line() {
    let mut o = Output::new();
    o.set(0, "a".to_string());
    o.set(4, "b".to_string());
    o.one("only this".to_string());
    assert_eq!(o.get(0), Some(&String::new()));
    assert_eq!(o.get(1), Some(&String::new()));
    assert_eq!(o.get(2), Some(&"only this".to_string()));
    assert_eq!(o.get(3), Some(&String::new()));
    assert_eq!(o.get(4), Some(&String::new()));
}

#[test]
fn config_defaults_apply_when_values_are_missing() {
    let empty = Config { server: None };
    assert_eq!(empty.bind_ip(), "0.0.0.0");
    assert_eq!(empty.bind_port(), "2277");
    let partial = Config {
        server: Some(Server {
            ip: Some("127.0.0.1".to_string()),
            port: None,
        }),
    };
    assert_eq!(partial.bind_ip(), "127.0.0.1");
    assert_eq!(partial.bind_port(), "2277");
    let full = Config {
        server: Some(Server {
            ip: Some("10.0.0.1".to_string()),
            port: Some("9999".to_string()),
        }),
    };
    assert_eq!(full.bind_ip(), "10.0.0.1");
    assert_eq!(full.bind_port(), "9999");
}
