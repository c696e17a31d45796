use final_compression::params::ParamSet;

#[test]
fn parse_basic() {
    let p = ParamSet::parse("level=3").unwrap();
    assert_eq!(p.get_string("level", ""), "3");
    assert_eq!(p.get_parse("level", 7), 3);
}

#[test]
fn parse_empty_is_valid() {
    let p = ParamSet::parse("").unwrap();
    assert_eq!(p.get_string("level", "fallback"), "fallback");
    assert_eq!(p.get_parse("level", 5), 5);
    assert_eq!(p.get_bool("flag", true), true);
}

#[test]
fn parse_compound() {
    let p = ParamSet::parse("level=1;block_mode=linked").unwrap();
    assert_eq!(p.get_string("block_mode", ""), "linked");
    assert_eq!(p.get_parse("level", 9), 1);
}

#[test]
fn parse_trims_whitespace() {
    let p = ParamSet::parse("  level =  3 ; mode = fast ").unwrap();
    assert_eq!(p.get_string("level", ""), "3");
    assert_eq!(p.get_string("mode", ""), "fast");
}

#[test]
fn stray_semicolons_ignored() {
    let p = ParamSet::parse("key=value;;;").unwrap();
    assert_eq!(p.get_string("key", ""), "value");
}

#[test]
fn key_only_token_ignored() {
    let p = ParamSet::parse("justakey;level=2").unwrap();
    assert_eq!(p.get_string("justakey", "absent"), "absent");
    assert_eq!(p.get_parse("level", 0), 2);
}

#[test]
fn duplicate_keys_last_wins() {
    let p = ParamSet::parse("k=1;k=2;k=3").unwrap();
    assert_eq!(p.get_string("k", ""), "3");
}

#[test]
fn escaped_value_decodes() {
    let p = ParamSet::parse("key=%%:%3B%3B%3B;key2=%%:%3B%3B%3B").unwrap();
    assert_eq!(p.get_string("key", ""), ";;;");
    assert_eq!(p.get_string("key2", ""), ";;;");
}

#[test]
fn escaped_prefix_itself_can_be_escaped() {
    let p = ParamSet::parse("k=%%:%25%25%3A123").unwrap();
    assert_eq!(p.get_string("k", ""), "%%:123");
}

#[test]
fn escaping_round_trip() {
    let samples = [";;;", "a=b;c=d", "%%:", "hello world", "=;%", ""];
    for s in samples {
        let enc = urlencoding::encode(s);
        let input = format!("key=%%:{}", enc);
        let p = ParamSet::parse(&input).unwrap();
        assert_eq!(p.get_string("key", "missing"), s);
    }
}

#[test]
fn bad_escape_is_fatal() {
    assert!(ParamSet::parse("key=%%:%FF").is_err());
}

#[test]
fn value_split_at_first_equals() {
    let p = ParamSet::parse("k=a=b").unwrap();
    assert_eq!(p.get_string("k", ""), "a=b");
}

#[test]
fn get_bool_semantics() {
    let p = ParamSet::parse("t=TRUE;u=true;f=false;x=yes").unwrap();
    assert_eq!(p.get_bool("t", false), true);
    assert_eq!(p.get_bool("u", false), true);
    assert_eq!(p.get_bool("f", true), false);
    assert_eq!(p.get_bool("x", true), false);
    assert_eq!(p.get_bool("absent", true), true);
    assert_eq!(p.get_bool("absent", false), false);
}

#[test]
fn get_parse_fallbacks() {
    let p = ParamSet::parse("n=12x;big=99999999999999999999;ok=22").unwrap();
    assert_eq!(p.get_parse("n", 4), 4);
    assert_eq!(p.get_parse("big", 4), 4);
    assert_eq!(p.get_parse("ok", 4), 22);
}

#[test]
fn get_parse_u32_bounds() {
    let p = ParamSet::parse("max=4294967295;over=4294967296;zero=0").unwrap();
    assert_eq!(p.get_parse("max", 1), u32::MAX);
    assert_eq!(p.get_parse("over", 1), 1);
    assert_eq!(p.get_parse("zero", 1), 0);
}

#[test]
fn get_parse_accepts_leading_plus() {
    // the standard unsigned conversion grammar: one optional leading `+`
    let p = ParamSet::parse("a=+3;b=+;c=++3;d=-3").unwrap();
    assert_eq!(p.get_string("a", ""), "+3");
    assert_eq!(p.get_parse("a", 7), 3);
    assert_eq!(p.get_parse("b", 7), 7);
    assert_eq!(p.get_parse("c", 7), 7);
    assert_eq!(p.get_parse("d", 7), 7);
}
