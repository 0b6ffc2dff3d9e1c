//! Rendering of pulled variables as a `.env` file: one `KEY=value` line per
//! variable, quoting where the value needs it, lines in sorted order, each
//! line ended by a newline.
use vstd::prelude::*;
use vstd::relations::sorted_by;
use vstd::string::*;
use crate::text::{chars_le, chars_le_exec, chars_of, chars_order, contains_char, lemma_chars_order_total};

verus! {

broadcast use vstd::seq_lib::group_to_multiset_ensures;

/// The line for one variable: `KEY=value`, or `KEY="value"` when the value
/// holds a space, `#` or `=` but no `"` and no backslash.
pub open spec fn dotenv_line(key: Seq<char>, value: Seq<char>) -> Seq<char> {
    if value.contains('"') || value.contains('\\') {
        key + seq!['='] + value
    } else if value.contains(' ') || value.contains('#') || value.contains('=') {
        key + seq!['=', '"'] + value + seq!['"']
    } else {
        key + seq!['='] + value
    }
}

/// `lines` joined with a newline between each two.
pub open spec fn join_lines(lines: Seq<Seq<char>>) -> Seq<char>
    decreases lines.len(),
{
    if lines.len() == 0 {
        seq![]
    } else if lines.len() == 1 {
        lines[0]
    } else {
        join_lines(lines.drop_last()) + seq!['\n'] + lines.last()
    }
}

/// The characters of each key and value.
pub open spec fn pair_views(vars: Seq<(String, String)>) -> Seq<(Seq<char>, Seq<char>)> {
    vars.map_values(|p: (String, String)| (p.0@, p.1@))
}

/// The characters of each string.
pub open spec fn string_views(lines: Seq<String>) -> Seq<Seq<char>> {
    lines.map_values(|s: String| s@)
}

/// The lines of the variables, in the order given.
pub open spec fn dotenv_lines(vars: Seq<(Seq<char>, Seq<char>)>) -> Seq<Seq<char>> {
    vars.map_values(|p: (Seq<char>, Seq<char>)| dotenv_line(p.0, p.1))
}

/// The `.env` text of the variables: their lines sorted, joined by newlines,
/// and a final newline.
pub open spec fn dotenv_text(vars: Seq<(Seq<char>, Seq<char>)>) -> Seq<char> {
    join_lines(dotenv_lines(vars).sort_by(chars_order())) + seq!['\n']
}

/// The `.env` line for `key` and `value`.
pub fn dotenv_line_exec(key: &String, value: &String) -> (res: String)
    ensures
        res@ == dotenv_line(key@, value@),
{
    let chars = chars_of(value.as_str());
    let raw = contains_char(&chars, '"') || contains_char(&chars, '\\');
    let quoted = !raw && (contains_char(&chars, ' ') || contains_char(&chars, '#')
        || contains_char(&chars, '='));
    proof {
        reveal_strlit("=");
        reveal_strlit("=\"");
        reveal_strlit("\"");
    }
    let mut line = key.clone();
    if quoted {
        line.append("=\"");
        line.append(value.as_str());
        line.append("\"");
    } else {
        line.append("=");
        line.append(value.as_str());
    }
    proof {
        if quoted {
            assert(line@ =~= key@ + seq!['=', '"'] + value@ + seq!['"']);
        } else {
            assert(line@ =~= key@ + seq!['='] + value@);
        }
    }
    line
}

/// Inserting `x` before the first element that is not below it keeps a
/// sorted sequence sorted.
proof fn lemma_insert_keeps_sorted(s: Seq<Seq<char>>, j: int, x: Seq<char>)
    requires
        sorted_by(s, chars_order()),
        0 <= j <= s.len(),
        forall|k: int| 0 <= k < j ==> !chars_le(x, #[trigger] s[k]),
        j < s.len() ==> chars_le(x, s[j]),
    ensures
        sorted_by(s.insert(j, x), chars_order()),
{
    lemma_chars_order_total();
    let t = s.insert(j, x);
    let r = chars_order();
    assert forall|a: int, b: int| 0 <= a < b < t.len() implies #[trigger] r(t[a], t[b]) by {
        if a < j && b < j {
            assert(r(s[a], s[b]));
        } else if a < j && b == j {
            assert(!chars_le(x, s[a]));
            assert(r(x, s[a]) || r(s[a], x));
        } else if a < j && b > j {
            assert(r(s[a], s[b - 1]));
        } else if a == j {
            assert(r(x, s[j]));
            if b - 1 > j {
                assert(r(s[j], s[b - 1]));
            }
        } else {
            assert(r(s[a - 1], s[b - 1]));
        }
    }
}

/// Renders the variables as `.env` text: one line per variable, the lines in
/// sorted order, joined by newlines and ended by one. No variables give a
/// single newline.
pub fn render_dotenv(vars: &Vec<(String, String)>) -> (res: String)
    ensures
        res@ == dotenv_text(pair_views(vars@)),
{
    let ghost lines = dotenv_lines(pair_views(vars@));
    let ghost r = chars_order();
    let mut sorted: Vec<String> = Vec::new();
    let mut sorted_chars: Vec<Vec<char>> = Vec::new();
    let n = vars.len();
    for i in 0..n
        invariant
            n == vars@.len(),
            lines == dotenv_lines(pair_views(vars@)),
            r == chars_order(),
            sorted@.len() == sorted_chars@.len(),
            forall|k: int| 0 <= k < sorted@.len() ==> #[trigger] sorted_chars@[k]@ == sorted@[k]@,
            sorted_by(string_views(sorted@), r),
            string_views(sorted@).to_multiset() == lines.take(i as int).to_multiset(),
    {
        let line = dotenv_line_exec(&vars[i].0, &vars[i].1);
        let line_chars = chars_of(line.as_str());
        let mut j: usize = 0;
        while j < sorted_chars.len() && !chars_le_exec(&line_chars, &sorted_chars[j])
            invariant
                j <= sorted_chars@.len(),
                sorted@.len() == sorted_chars@.len(),
                forall|k: int| 0 <= k < sorted@.len() ==> #[trigger] sorted_chars@[k]@ == sorted@[k]@,
                forall|k: int| 0 <= k < j ==> !chars_le(line_chars@, #[trigger] string_views(sorted@)[k]),
            decreases sorted_chars@.len() - j,
        {
            j = j + 1;
        }
        let ghost before = string_views(sorted@);
        proof {
            lemma_insert_keeps_sorted(before, j as int, line@);
            assert(lines.take(i + 1) =~= lines.take(i as int).push(line@));
        }
        sorted.insert(j, line);
        sorted_chars.insert(j, line_chars);
        proof {
            assert(string_views(sorted@) =~= before.insert(j as int, line@));
        }
    }
    proof {
        assert(lines.take(n as int) =~= lines);
        lemma_chars_order_total();
        lines.lemma_sort_by_ensures(r);
        vstd::seq_lib::lemma_sorted_unique(string_views(sorted@), lines.sort_by(r), r);
    }
    let ghost views = string_views(sorted@);
    let mut out = String::new();
    proof {
        reveal_strlit("\n");
    }
    let count = sorted.len();
    for i in 0..count
        invariant
            count == sorted@.len(),
            views == string_views(sorted@),
            out@ == join_lines(views.take(i as int)),
    {
        let ghost prev = out@;
        proof {
            reveal_strlit("\n");
        }
        if i > 0 {
            out.append("\n");
        }
        out.append(sorted[i].as_str());
        proof {
            let t = views.take(i + 1);
            assert(t.drop_last() =~= views.take(i as int));
            assert(t.last() == sorted@[i as int]@);
            if i == 0 {
                assert(out@ =~= t[0]);
            } else {
                assert(out@ =~= prev + seq!['\n'] + t.last());
            }
        }
    }
    out.append("\n");
    proof {
        assert(views.take(count as int) =~= views);
    }
    out
}

/// Each line followed by a newline, one after the other.
pub open spec fn newline_terminated(lines: Seq<Seq<char>>) -> Seq<char>
    decreases lines.len(),
{
    if lines.len() == 0 {
        seq![]
    } else {
        newline_terminated(lines.drop_last()) + lines.last() + seq!['\n']
    }
}

/// The value holds a `"` or a backslash.
pub open spec fn has_raw_char(value: Seq<char>) -> bool {
    exists|i: int| 0 <= i < value.len() && (value[i] == '"' || value[i] == '\\')
}

/// The value holds a space, a `#` or a `=`.
pub open spec fn has_special_char(value: Seq<char>) -> bool {
    exists|i: int| 0 <= i < value.len() && (value[i] == ' ' || value[i] == '#' || value[i] == '=')
}

/// The quoting of a `.env` line: it starts with the key and `=`; when the
/// value holds a space, `#` or `=` but neither `"` nor a backslash, the value
/// follows between double quotes; otherwise the value follows as it is.
pub proof fn lemma_dotenv_line_quoting(key: Seq<char>, value: Seq<char>)
    ensures
        ({
            let line = dotenv_line(key, value);
            let k = key.len() as int;
            &&& line.take(k) == key
            &&& line[k] == '='
            &&& !has_raw_char(value) && has_special_char(value) ==> {
                &&& line.len() == k + value.len() + 3
                &&& line[k + 1] == '"'
                &&& line.subrange(k + 2, line.len() - 1) == value
                &&& line[line.len() - 1] == '"'
            }
            &&& has_raw_char(value) || !has_special_char(value) ==> {
                &&& line.len() == k + value.len() + 1
                &&& line.skip(k + 1) == value
            }
        }),
{
    let line = dotenv_line(key, value);
    let k = key.len() as int;
    if has_raw_char(value) {
        let i = choose|i: int| 0 <= i < value.len() && (value[i] == '"' || value[i] == '\\');
        assert(value.contains('"') || value.contains('\\')) by {
            if value[i] == '"' {
                assert(value.contains('"'));
            } else {
                assert(value.contains('\\'));
            }
        }
    } else {
        assert(!value.contains('"') && !value.contains('\\')) by {
            if value.contains('"') {
                let j = choose|j: int| 0 <= j < value.len() && value[j] == '"';
                assert(value[j] == '"');
            }
            if value.contains('\\') {
                let j = choose|j: int| 0 <= j < value.len() && value[j] == '\\';
                assert(value[j] == '\\');
            }
        }
        if has_special_char(value) {
            let i = choose|i: int|
                0 <= i < value.len() && (value[i] == ' ' || value[i] == '#' || value[i] == '=');
            assert(value[i] == ' ' || value[i] == '#' || value[i] == '=');
            assert(value.contains(' ') || value.contains('#') || value.contains('='));
        } else {
            assert(!value.contains(' ') && !value.contains('#') && !value.contains('=')) by {
                if value.contains(' ') {
                    let j = choose|j: int| 0 <= j < value.len() && value[j] == ' ';
                    assert(value[j] == ' ');
                }
                if value.contains('#') {
                    let j = choose|j: int| 0 <= j < value.len() && value[j] == '#';
                    assert(value[j] == '#');
                }
                if value.contains('=') {
                    let j = choose|j: int| 0 <= j < value.len() && value[j] == '=';
                    assert(value[j] == '=');
                }
            }
        }
    }
    if !has_raw_char(value) && has_special_char(value) {
        assert(line =~= key + seq!['=', '"'] + value + seq!['"']);
        assert(line.take(k) =~= key);
        assert(line.subrange(k + 2, line.len() - 1) =~= value);
    } else {
        assert(line =~= key + seq!['='] + value);
        assert(line.take(k) =~= key);
        assert(line.skip(k + 1) =~= value);
    }
}

proof fn lemma_join_then_newline(lines: Seq<Seq<char>>)
    requires
        lines.len() > 0,
    ensures
        join_lines(lines) + seq!['\n'] == newline_terminated(lines),
    decreases lines.len(),
{
    if lines.len() == 1 {
        assert(lines.drop_last() =~= Seq::<Seq<char>>::empty());
        assert(newline_terminated(lines.drop_last()) =~= Seq::<char>::empty());
        assert(newline_terminated(lines) =~= lines[0] + seq!['\n']);
    } else {
        lemma_join_then_newline(lines.drop_last());
        assert(join_lines(lines) + seq!['\n'] =~= (join_lines(lines.drop_last()) + seq!['\n'])
            + lines.last() + seq!['\n']);
    }
}

/// The shape of the `.env` text: no variables give a single newline;
/// otherwise the text is one line per variable, each followed by a newline,
/// the lines in sorted order, every variable's line among them.
pub proof fn lemma_dotenv_text_lines(vars: Seq<(Seq<char>, Seq<char>)>)
    ensures
        vars.len() == 0 ==> dotenv_text(vars) == seq!['\n'],
        vars.len() > 0 ==> dotenv_text(vars) == newline_terminated(
            dotenv_lines(vars).sort_by(chars_order()),
        ),
        dotenv_lines(vars).sort_by(chars_order()).len() == vars.len(),
        sorted_by(dotenv_lines(vars).sort_by(chars_order()), chars_order()),
        forall|i: int|
            0 <= i < vars.len() ==> dotenv_lines(vars).sort_by(chars_order()).contains(
                dotenv_line(#[trigger] vars[i].0, vars[i].1),
            ),
{
    let r = chars_order();
    let lines = dotenv_lines(vars);
    let sorted = lines.sort_by(r);
    lemma_chars_order_total();
    lines.lemma_sort_by_ensures(r);
    assert(sorted.len() == lines.len()) by {
        assert(sorted.to_multiset().len() == lines.to_multiset().len());
    }
    if vars.len() == 0 {
        assert(sorted.len() == 0);
        assert(join_lines(sorted) =~= Seq::<char>::empty());
        assert(dotenv_text(vars) =~= seq!['\n']);
    } else {
        lemma_join_then_newline(sorted);
    }
    assert forall|i: int| 0 <= i < vars.len() implies sorted.contains(
        dotenv_line(#[trigger] vars[i].0, vars[i].1),
    ) by {
        let x = dotenv_line(vars[i].0, vars[i].1);
        assert(lines[i] == x);
        assert(lines.to_multiset().count(x) > 0);
        assert(sorted.to_multiset().count(x) > 0);
    }
}

/// Two multisets of lines that are equal as multisets map to equal
/// multisets under any function.
proof fn lemma_map_values_multiset<A, B>(a: Seq<A>, b: Seq<A>, f: spec_fn(A) -> B)
    requires
        a.to_multiset() == b.to_multiset(),
    ensures
        a.map_values(f).to_multiset() == b.map_values(f).to_multiset(),
    decreases a.len(),
{
    broadcast use vstd::multiset::group_multiset_axioms;

    if a.len() == 0 {
        assert(b.to_multiset().len() == 0);
        assert(b.len() == 0);
        assert(a.map_values(f) =~= b.map_values(f));
    } else {
        let x = a.last();
        assert(a.to_multiset().count(x) > 0);
        assert(b.contains(x));
        let k = choose|k: int| 0 <= k < b.len() && b[k] == x;
        let a1 = a.drop_last();
        let b1 = b.remove(k);
        assert(a =~= a1.push(x));
        assert(a1.to_multiset() =~= b1.to_multiset());
        lemma_map_values_multiset(a1, b1, f);
        assert(a.map_values(f) =~= a1.map_values(f).push(f(x)));
        assert(b.map_values(f).remove(k) =~= b1.map_values(f));
        assert(b.map_values(f)[k] == f(x));
    }
}

/// The `.env` text does not depend on the order in which the variables come:
/// any two lists holding the same variables give the same text.
pub proof fn lemma_dotenv_text_order_free(
    a: Seq<(Seq<char>, Seq<char>)>,
    b: Seq<(Seq<char>, Seq<char>)>,
)
    requires
        a.to_multiset() == b.to_multiset(),
    ensures
        dotenv_text(a) == dotenv_text(b),
{
    let f = |p: (Seq<char>, Seq<char>)| dotenv_line(p.0, p.1);
    lemma_map_values_multiset(a, b, f);
    let r = chars_order();
    lemma_chars_order_total();
    dotenv_lines(a).lemma_sort_by_ensures(r);
    dotenv_lines(b).lemma_sort_by_ensures(r);
    vstd::seq_lib::lemma_sorted_unique(dotenv_lines(a).sort_by(r), dotenv_lines(b).sort_by(r), r);
}

/// The lines of the `.env` text are the lines of the variables, each once,
/// in sorted order.
pub proof fn lemma_dotenv_lines_sorted(vars: Seq<(Seq<char>, Seq<char>)>)
    ensures
        sorted_by(dotenv_lines(vars).sort_by(chars_order()), chars_order()),
        dotenv_lines(vars).sort_by(chars_order()).to_multiset() == dotenv_lines(vars).to_multiset(),
{
    lemma_chars_order_total();
    dotenv_lines(vars).lemma_sort_by_ensures(chars_order());
}

} // verus!
