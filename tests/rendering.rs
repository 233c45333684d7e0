use prometheus_text::render_to_prometheus::PrometheusCounter;

#[test]
fn header_with_empty_fields() {
    let pc = PrometheusCounter::new("", "", "");
    assert_eq!(pc.render_header(), "# HELP  \n# TYPE  \n");
}

#[test]
fn header_ignores_labels() {
    let mut pc = PrometheusCounter::new("reqs", "gauge", "Open requests");
    pc.attributes.push(("path", "/a".to_owned()));
    assert_eq!(pc.render_header(), "# HELP reqs Open requests\n# TYPE reqs gauge\n");
}

#[test]
fn sample_without_labels() {
    let pc = PrometheusCounter::new("gigino_total", "counter", "Number of giginos");
    assert_eq!(pc.render_sample("100"), "gigino_total 100\n");
    assert_eq!(pc.render_sample("+Inf"), "gigino_total +Inf\n");
}

#[test]
fn sample_with_two_labels() {
    let mut pc = PrometheusCounter::new("pippo_total", "counter", "Number of pippos");
    pc.attributes.push(("food", "chicken".to_owned()));
    pc.attributes.push(("instance", "3".to_owned()));
    assert_eq!(
        pc.render_sample("3"),
        "pippo_total{food=\"chicken\",instance=\"3\"} 3\n"
    );
    assert_eq!(
        pc.render_counter(3),
        "pippo_total{food=\"chicken\",instance=\"3\"} 3\n"
    );
}

#[test]
fn sample_with_one_label() {
    let mut pc = PrometheusCounter::new("up", "gauge", "Is up");
    pc.attributes.push(("job", "api".to_owned()));
    assert_eq!(pc.render_sample("1"), "up{job=\"api\"} 1\n");
}

#[test]
fn labels_keep_insertion_order_and_duplicates() {
    let mut pc = PrometheusCounter::new("m", "counter", "h");
    pc.attributes.push(("zeta", "1".to_owned()));
    pc.attributes.push(("alpha", "2".to_owned()));
    pc.attributes.push(("zeta", "3".to_owned()));
    assert_eq!(pc.render_sample("7"), "m{zeta=\"1\",alpha=\"2\",zeta=\"3\"} 7\n");
}

#[test]
fn label_values_are_not_escaped() {
    let mut pc = PrometheusCounter::new("m", "counter", "h");
    pc.attributes.push(("k", "a\"b\\c".to_owned()));
    assert_eq!(pc.render_sample("0"), "m{k=\"a\"b\\c\"} 0\n");
}

#[test]
fn empty_label_value() {
    let mut pc = PrometheusCounter::new("m", "counter", "h");
    pc.attributes.push(("k", "".to_owned()));
    assert_eq!(pc.render_sample("5"), "m{k=\"\"} 5\n");
}

#[test]
fn rendering_twice_gives_the_same_text() {
    let mut pc = PrometheusCounter::new("m", "counter", "help text");
    pc.attributes.push(("a", "x".to_owned()));
    assert_eq!(pc.render_header(), pc.render_header());
    assert_eq!(pc.render_sample("42"), pc.render_sample("42"));
    assert_eq!(pc.render_counter(42), pc.render_counter(42));
}

#[test]
fn changing_one_label_changes_only_its_text() {
    let mut pc = PrometheusCounter::new("m", "counter", "h");
    pc.attributes.push(("a", "1".to_owned()));
    pc.attributes.push(("b", "2".to_owned()));
    pc.attributes.push(("c", "3".to_owned()));
    assert_eq!(pc.render_sample("9"), "m{a=\"1\",b=\"2\",c=\"3\"} 9\n");
    pc.attributes[1].1 = "twenty".to_owned();
    assert_eq!(pc.render_sample("9"), "m{a=\"1\",b=\"twenty\",c=\"3\"} 9\n");
}

#[test]
fn display_values_use_their_text() {
    let pc = PrometheusCounter::new("m", "counter", "h");
    assert_eq!(pc.render_counter(-12i64), "m -12\n");
    assert_eq!(pc.render_counter(2.5f64), "m 2.5\n");
    assert_eq!(pc.render_counter("NaN"), "m NaN\n");
}
