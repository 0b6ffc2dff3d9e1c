use centralenv::dotenv::{dotenv_line_exec, render_dotenv};

fn pair(k: &str, v: &str) -> (String, String) {
    (k.to_string(), v.to_string())
}

fn line(k: &str, v: &str) -> String {
    dotenv_line_exec(&k.to_string(), &v.to_string())
}

#[test]
fn plain_values_are_written_as_is() {
    assert_eq!(line("KEY", "value"), "KEY=value");
    assert_eq!(line("EMPTY", ""), "EMPTY=");
}

#[test]
fn values_with_space_hash_or_equals_are_quoted() {
    assert_eq!(line("A", "two words"), "A=\"two words\"");
    assert_eq!(line("B", "x#y"), "B=\"x#y\"");
    assert_eq!(line("C", "k=v"), "C=\"k=v\"");
}

#[test]
fn values_with_quote_or_backslash_are_not_quoted() {
    assert_eq!(line("Q", "say \"hi\""), "Q=say \"hi\"");
    assert_eq!(line("P", "C:\\dir x"), "P=C:\\dir x");
}

#[test]
fn lines_are_sorted_and_end_with_newline() {
    let vars = vec![pair("ZED", "1"), pair("ALPHA", "a b"), pair("MID", "m")];
    assert_eq!(render_dotenv(&vars), "ALPHA=\"a b\"\nMID=m\nZED=1\n");
}

#[test]
fn no_variables_give_a_single_newline() {
    assert_eq!(render_dotenv(&vec![]), "\n");
}

#[test]
fn order_of_variables_does_not_matter() {
    let a = vec![pair("B", "2"), pair("A", "1"), pair("C", "x y"), pair("AA", "0")];
    let mut b = a.clone();
    b.reverse();
    let mut c = a.clone();
    c.rotate_left(2);
    let ra = render_dotenv(&a);
    assert_eq!(ra, render_dotenv(&b));
    assert_eq!(ra, render_dotenv(&c));
    assert_eq!(ra, "A=1\nAA=0\nB=2\nC=\"x y\"\n");
}

#[test]
fn sorting_matches_string_order() {
    let vars = vec![pair("b", "1"), pair("B", "1"), pair("é", "1"), pair("a_", "1"), pair("a", "1")];
    let out = render_dotenv(&vars);
    let mut expected: Vec<String> = vars.iter().map(|(k, v)| format!("{}={}", k, v)).collect();
    expected.sort();
    assert_eq!(out, expected.join("\n") + "\n");
}
