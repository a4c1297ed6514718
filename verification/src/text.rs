use vstd::prelude::*;
use vstd::string::*;

verus! {

broadcast use vstd::string::group_string_axioms;

/// Unicode `White_Space`, the property that `char::is_whitespace` tests.
pub open spec fn is_white_space(c: char) -> bool {
    let u = c as u32;
    ||| 0x09 <= u <= 0x0D
    ||| u == 0x20
    ||| u == 0x85
    ||| u == 0xA0
    ||| u == 0x1680
    ||| 0x2000 <= u <= 0x200A
    ||| u == 0x2028
    ||| u == 0x2029
    ||| u == 0x202F
    ||| u == 0x205F
    ||| u == 0x3000
}

/// `s` without its leading white space.
pub open spec fn trim_start(s: Seq<char>) -> Seq<char>
    decreases s.len(),
{
    if s.len() > 0 && is_white_space(s[0]) {
        trim_start(s.drop_first())
    } else {
        s
    }
}

/// `s` without its trailing white space.
pub open spec fn trim_end(s: Seq<char>) -> Seq<char>
    decreases s.len(),
{
    if s.len() > 0 && is_white_space(s.last()) {
        trim_end(s.drop_last())
    } else {
        s
    }
}

/// `s` without leading and trailing white space, as `str::trim` gives it.
pub open spec fn trim(s: Seq<char>) -> Seq<char> {
    trim_end(trim_start(s))
}

/// `c` with an ASCII upper-case letter mapped to lower case.
pub open spec fn ascii_lower(c: char) -> char {
    if 'A' <= c <= 'Z' {
        ((c as u32) + 32) as char
    } else {
        c
    }
}

/// `s` with every ASCII letter in lower case, as `str::to_ascii_lowercase` gives it.
pub open spec fn ascii_lowercase(s: Seq<char>) -> Seq<char> {
    s.map_values(|c: char| ascii_lower(c))
}

/// An answer to a `[y/N]` question that confirms: `y` or `yes`, in any case,
/// with surrounding white space ignored.
pub open spec fn is_affirmative_answer(input: Seq<char>) -> bool {
    let a = ascii_lowercase(trim(input));
    a == seq!['y'] || a == seq!['y', 'e', 's']
}

/// Whether some character of `s` is white space.
pub open spec fn has_white_space(s: Seq<char>) -> bool {
    exists|i: int| 0 <= i < s.len() && is_white_space(#[trigger] s[i])
}

/// How one argument is shown in a rendered command line: in double quotes
/// when it holds white space, as it is otherwise.
pub open spec fn quote_arg(a: Seq<char>) -> Seq<char> {
    if has_white_space(a) {
        seq!['"'] + a + seq!['"']
    } else {
        a
    }
}

/// The parts joined by single spaces.
pub open spec fn join_spaced(parts: Seq<Seq<char>>) -> Seq<char>
    decreases parts.len(),
{
    if parts.len() == 0 {
        Seq::empty()
    } else if parts.len() == 1 {
        parts[0]
    } else {
        join_spaced(parts.drop_last()) + seq![' '] + parts.last()
    }
}

/// A command line as it is shown to the user before it runs: the program,
/// then each argument, quoted where it holds white space, separated by spaces.
pub open spec fn render_command(program: Seq<char>, args: Seq<Seq<char>>) -> Seq<char> {
    if args.len() == 0 {
        program
    } else {
        program + seq![' '] + join_spaced(args.map_values(|a: Seq<char>| quote_arg(a)))
    }
}

/// `name` appended to the directory `dir` as `Path::join` does for a
/// relative `name`: a `/` is put between them unless `dir` is empty or
/// already ends in one.
pub open spec fn join_path(dir: Seq<char>, name: Seq<char>) -> Seq<char> {
    if dir.len() == 0 {
        name
    } else if dir.last() == '/' {
        dir + name
    } else {
        dir + seq!['/'] + name
    }
}

/// The characters of `s`, in order.
pub fn chars_of(s: &str) -> (r: Vec<char>)
    ensures
        r@ == s@,
{
    let mut r: Vec<char> = Vec::new();
    for c in it: s.chars()
        invariant
            it.seq() == s@,
            r@ == it.seq().take(it.index() as int),
    {
        r.push(c);
    }
    r
}

/// Whether `c` is white space, as `char::is_whitespace` decides it.
pub fn is_whitespace_char(c: char) -> (r: bool)
    ensures
        r == is_white_space(c),
{
    let u = c as u32;
    (0x09 <= u && u <= 0x0D) || u == 0x20 || u == 0x85 || u == 0xA0 || u == 0x1680 || (0x2000
        <= u && u <= 0x200A) || u == 0x2028 || u == 0x2029 || u == 0x202F || u == 0x205F || u
        == 0x3000
}

proof fn lemma_trim_start_step(s: Seq<char>, i: int)
    requires
        0 <= i < s.len(),
        is_white_space(s[i]),
    ensures
        trim_start(s.subrange(i, s.len() as int)) == trim_start(s.subrange(i + 1, s.len() as int)),
{
    assert(s.subrange(i, s.len() as int).drop_first() =~= s.subrange(i + 1, s.len() as int));
}

proof fn lemma_trim_end_step(s: Seq<char>, i: int, j: int)
    requires
        0 <= i < j <= s.len(),
        is_white_space(s[j - 1]),
    ensures
        trim_end(s.subrange(i, j)) == trim_end(s.subrange(i, j - 1)),
{
    assert(s.subrange(i, j).drop_last() =~= s.subrange(i, j - 1));
}

/// Where the text that `trim` keeps starts and ends in `s`.
fn trim_bounds(s: &Vec<char>) -> (r: (usize, usize))
    ensures
        r.0 <= r.1 <= s@.len(),
        s@.subrange(r.0 as int, r.1 as int) == trim(s@),
{
    let n = s.len();
    let mut i: usize = 0;
    assert(s@.subrange(0, n as int) =~= s@);
    while i < n && is_whitespace_char(s[i])
        invariant
            n == s@.len(),
            i <= n,
            trim_start(s@) == trim_start(s@.subrange(i as int, n as int)),
        decreases n - i,
    {
        proof {
            lemma_trim_start_step(s@, i as int);
        }
        i = i + 1;
    }
    let ghost front = s@.subrange(i as int, n as int);
    assert(trim_start(front) == front);
    let mut j: usize = n;
    while j > i && is_whitespace_char(s[j - 1])
        invariant
            n == s@.len(),
            i <= j <= n,
            front == s@.subrange(i as int, n as int),
            trim_end(front) == trim_end(s@.subrange(i as int, j as int)),
        decreases j,
    {
        proof {
            lemma_trim_end_step(s@, i as int, j as int);
        }
        j = j - 1;
    }
    assert(trim_end(s@.subrange(i as int, j as int)) == s@.subrange(i as int, j as int));
    (i, j)
}

/// `s` without leading and trailing white space.
pub fn trim_str(s: &str) -> (r: String)
    ensures
        r@ == trim(s@),
{
    let cs = chars_of(s);
    let (i, j) = trim_bounds(&cs);
    s.substring_char(i, j).to_string()
}

/// Whether `input`, a line read from the user, confirms a `[y/N]` question.
pub fn is_affirmative(input: &str) -> (r: bool)
    ensures
        r == is_affirmative_answer(input@),
{
    let cs = chars_of(input);
    let (i, j) = trim_bounds(&cs);
    let ghost t = trim(input@);
    let ghost lower = ascii_lowercase(t);
    assert(lower.len() == t.len());
    if j - i == 1 {
        let a = cs[i];
        let r = a == 'y' || a == 'Y';
        assert(t[0] == a);
        assert(lower[0] == ascii_lower(a));
        assert(r == (lower =~= seq!['y']));
        assert(lower != seq!['y', 'e', 's']);
        r
    } else if j - i == 3 {
        let a = cs[i];
        let b = cs[i + 1];
        let c = cs[i + 2];
        let r = (a == 'y' || a == 'Y') && (b == 'e' || b == 'E') && (c == 's' || c == 'S');
        assert(t[0] == a && t[1] == b && t[2] == c);
        assert(lower[0] == ascii_lower(a) && lower[1] == ascii_lower(b) && lower[2] == ascii_lower(
            c,
        ));
        assert(r == (lower =~= seq!['y', 'e', 's']));
        assert(lower != seq!['y']);
        r
    } else {
        assert(lower != seq!['y']);
        assert(lower != seq!['y', 'e', 's']);
        false
    }
}

/// Whether some character of `s` is white space.
fn contains_white_space(s: &str) -> (r: bool)
    ensures
        r == has_white_space(s@),
{
    let cs = chars_of(s);
    let n = cs.len();
    let mut i: usize = 0;
    while i < n
        invariant
            n == s@.len(),
            cs@ == s@,
            i <= n,
            forall|k: int| 0 <= k < i ==> !is_white_space(#[trigger] s@[k]),
        decreases n - i,
    {
        if is_whitespace_char(cs[i]) {
            assert(is_white_space(s@[i as int]));
            return true;
        }
        i = i + 1;
    }
    false
}

/// One argument as it is shown in a rendered command line.
fn quoted_arg(a: &str) -> (r: String)
    ensures
        r@ == quote_arg(a@),
{
    proof {
        reveal_strlit("\"");
        assert("\""@ =~= seq!['"']);
    }
    if contains_white_space(a) {
        let mut r = String::from_str("\"");
        r.append(a);
        r.append("\"");
        r
    } else {
        a.to_string()
    }
}

/// Render a command line as it is shown to the user before it runs:
/// the program, then each argument, quoted where it holds white space.
pub fn format_command(program: &str, args: &Vec<String>) -> (r: String)
    ensures
        r@ == render_command(program@, args@.map_values(|a: String| a@)),
{
    proof {
        reveal_strlit(" ");
        assert(" "@ =~= seq![' ']);
    }
    let ghost views = args@.map_values(|a: String| a@);
    let ghost quoted = views.map_values(|a: Seq<char>| quote_arg(a));
    let mut r = program.to_string();
    if args.len() == 0 {
        return r;
    }
    r.append(" ");
    let n = args.len();
    let mut i: usize = 0;
    while i < n
        invariant
            n == args@.len(),
            views == args@.map_values(|a: String| a@),
            quoted == views.map_values(|a: Seq<char>| quote_arg(a)),
            quoted.len() == n,
            " "@ == seq![' '],
            i <= n,
            r@ == program@ + seq![' '] + join_spaced(quoted.take(i as int)),
        decreases n - i,
    {
        let q = quoted_arg(args[i].as_str());
        let ghost t = quoted.take(i + 1);
        assert(q@ == quoted[i as int]);
        assert(t.drop_last() =~= quoted.take(i as int));
        assert(t.last() == q@);
        let ghost before = r@;
        if i > 0 {
            r.append(" ");
            r.append(q.as_str());
            assert(join_spaced(t) == join_spaced(t.drop_last()) + seq![' '] + t.last());
            assert(r@ == before + seq![' '] + q@);
        } else {
            r.append(q.as_str());
            assert(join_spaced(t) == t[0]);
            assert(join_spaced(quoted.take(0)) =~= Seq::<char>::empty());
            assert(r@ == before + q@);
        }
        assert(r@ =~= program@ + seq![' '] + join_spaced(t));
        i = i + 1;
    }
    assert(quoted.take(n as int) =~= quoted);
    r
}

/// The path of the entry `name` in the directory `dir`, spelled as
/// `Path::new(dir).join(name)` spells it for a relative `name`.
pub fn join_dir(dir: &str, name: &str) -> (r: String)
    ensures
        r@ == join_path(dir@, name@),
{
    proof {
        reveal_strlit("/");
        assert("/"@ =~= seq!['/']);
    }
    let cs = chars_of(dir);
    let n = cs.len();
    let mut r = dir.to_string();
    if n == 0 {
        return name.to_string();
    }
    if cs[n - 1] != '/' {
        r.append("/");
    }
    r.append(name);
    r
}

proof fn lemma_lower_keeps_white_space(c: char)
    ensures
        is_white_space(ascii_lower(c)) == is_white_space(c),
        ascii_lower(ascii_lower(c)) == ascii_lower(c),
{
    if 'A' <= c <= 'Z' {
        let u = c as u32;
        assert(65 <= u <= 90);
        let l = (u + 32) as char;
        assert(l as u32 == u + 32) by {
            assert(vstd::utf8::is_scalar((u + 32) as u32));
        }
        assert(!('A' <= l <= 'Z'));
    }
}

proof fn lemma_lowercase_drop_first(s: Seq<char>)
    requires
        s.len() > 0,
    ensures
        ascii_lowercase(s).drop_first() == ascii_lowercase(s.drop_first()),
        ascii_lowercase(s).drop_last() == ascii_lowercase(s.drop_last()),
{
    assert(ascii_lowercase(s).drop_first() =~= ascii_lowercase(s.drop_first()));
    assert(ascii_lowercase(s).drop_last() =~= ascii_lowercase(s.drop_last()));
}

proof fn lemma_trim_start_lowercase(s: Seq<char>)
    ensures
        trim_start(ascii_lowercase(s)) == ascii_lowercase(trim_start(s)),
    decreases s.len(),
{
    if s.len() > 0 {
        lemma_lower_keeps_white_space(s[0]);
        lemma_lowercase_drop_first(s);
        if is_white_space(s[0]) {
            lemma_trim_start_lowercase(s.drop_first());
        }
    }
}

proof fn lemma_trim_end_lowercase(s: Seq<char>)
    ensures
        trim_end(ascii_lowercase(s)) == ascii_lowercase(trim_end(s)),
    decreases s.len(),
{
    if s.len() > 0 {
        lemma_lower_keeps_white_space(s.last());
        lemma_lowercase_drop_first(s);
        if is_white_space(s.last()) {
            lemma_trim_end_lowercase(s.drop_last());
        }
    }
}

proof fn lemma_lowercase_idempotent(s: Seq<char>)
    ensures
        ascii_lowercase(ascii_lowercase(s)) == ascii_lowercase(s),
{
    assert forall|i: int| 0 <= i < s.len() implies #[trigger] ascii_lowercase(ascii_lowercase(s))[i]
        == ascii_lowercase(s)[i] by {
        lemma_lower_keeps_white_space(s[i]);
    }
    assert(ascii_lowercase(ascii_lowercase(s)) =~= ascii_lowercase(s));
}

proof fn lemma_trim_start_idempotent(s: Seq<char>)
    ensures
        trim_start(trim_start(s)) == trim_start(s),
        trim_start(s).len() > 0 ==> !is_white_space(trim_start(s)[0]),
    decreases s.len(),
{
    if s.len() > 0 && is_white_space(s[0]) {
        lemma_trim_start_idempotent(s.drop_first());
    }
}

proof fn lemma_trim_end_keeps_start(s: Seq<char>)
    requires
        s.len() > 0 ==> !is_white_space(s[0]),
    ensures
        trim_end(s).len() > 0 ==> !is_white_space(trim_end(s)[0]),
        trim_end(s).len() > 0 ==> trim_end(s)[0] == s[0],
    decreases s.len(),
{
    if s.len() > 0 && is_white_space(s.last()) {
        if s.len() > 1 {
            lemma_trim_end_keeps_start(s.drop_last());
        }
    }
}

proof fn lemma_trim_end_idempotent(s: Seq<char>)
    ensures
        trim_end(trim_end(s)) == trim_end(s),
    decreases s.len(),
{
    if s.len() > 0 && is_white_space(s.last()) {
        lemma_trim_end_idempotent(s.drop_last());
    }
}

/// Trimming twice is trimming once.
pub proof fn lemma_trim_idempotent(s: Seq<char>)
    ensures
        trim(trim(s)) == trim(s),
{
    let a = trim_start(s);
    lemma_trim_start_idempotent(s);
    lemma_trim_end_keeps_start(a);
    let b = trim_end(a);
    // `b` starts with no white space, so trimming its front changes nothing.
    assert(trim_start(b) == b);
    lemma_trim_end_idempotent(a);
}

/// The answer to a `[y/N]` question does not depend on letter case.
pub proof fn lemma_affirmative_ignores_case(input: Seq<char>)
    ensures
        is_affirmative_answer(input) == is_affirmative_answer(ascii_lowercase(input)),
{
    lemma_trim_start_lowercase(input);
    lemma_trim_end_lowercase(trim_start(input));
    lemma_lowercase_idempotent(trim(input));
}

/// White space around the answer to a `[y/N]` question does not matter.
pub proof fn lemma_affirmative_ignores_surrounding_space(input: Seq<char>)
    ensures
        is_affirmative_answer(input) == is_affirmative_answer(trim(input)),
{
    lemma_trim_idempotent(input);
}

/// `y`, `Y`, `yes` and `YES` confirm; an empty answer, `n` and `no` do not.
pub proof fn lemma_affirmative_answers()
    ensures
        is_affirmative_answer(seq!['y']),
        is_affirmative_answer(seq!['Y']),
        is_affirmative_answer(seq!['y', 'e', 's']),
        is_affirmative_answer(seq!['Y', 'E', 'S']),
        !is_affirmative_answer(Seq::empty()),
        !is_affirmative_answer(seq!['n']),
        !is_affirmative_answer(seq!['n', 'o']),
{
    assert(ascii_lowercase(seq!['y']) =~= seq!['y']);
    assert(ascii_lowercase(seq!['Y']) =~= seq!['y']);
    assert(ascii_lowercase(seq!['y', 'e', 's']) =~= seq!['y', 'e', 's']);
    assert(ascii_lowercase(seq!['Y', 'E', 'S']) =~= seq!['y', 'e', 's']);
    assert(ascii_lowercase(seq!['n']) =~= seq!['n']);
    assert(ascii_lowercase(seq!['n', 'o']) =~= seq!['n', 'o']);
    assert(ascii_lowercase(Seq::<char>::empty()) =~= Seq::<char>::empty());
    assert(seq!['y'].drop_last().len() == 0);
    assert(trim(seq!['y']) == seq!['y']);
    assert(trim(seq!['Y']) == seq!['Y']);
    assert(trim(seq!['y', 'e', 's']) == seq!['y', 'e', 's']);
    assert(trim(seq!['Y', 'E', 'S']) == seq!['Y', 'E', 'S']);
    assert(trim(seq!['n']) == seq!['n']);
    assert(trim(seq!['n', 'o']) == seq!['n', 'o']);
    assert(trim(Seq::<char>::empty()) == Seq::<char>::empty());
    assert(seq!['n'] != seq!['y']);
    assert(seq!['n', 'o'] != seq!['y']);
    assert(seq!['n', 'o'] != seq!['y', 'e', 's']);
}

/// How an argument is shown: as it is when it holds no white space, and in
/// double quotes when some character of it is white space.
pub proof fn lemma_quote_arg_shows_argument(a: Seq<char>)
    ensures
        (forall|i: int| 0 <= i < a.len() ==> !is_white_space(#[trigger] a[i])) ==> quote_arg(a)
            == a,
        (exists|i: int| 0 <= i < a.len() && is_white_space(#[trigger] a[i])) ==> quote_arg(a)
            == seq!['"'] + a + seq!['"'],
{
}

/// A rendered command line shows the program, then every argument in
/// order, each after one space: with no arguments it is the program alone,
/// and one more argument adds a space and that argument to the end.
pub proof fn lemma_render_command_shows_every_argument(
    program: Seq<char>,
    args: Seq<Seq<char>>,
    a: Seq<char>,
)
    ensures
        render_command(program, Seq::empty()) == program,
        render_command(program, seq![a]) == program + seq![' '] + quote_arg(a),
        args.len() > 0 ==> render_command(program, args.push(a)) == render_command(program, args)
            + seq![' '] + quote_arg(a),
{
    let q = |x: Seq<char>| quote_arg(x);
    assert(seq![a].map_values(q) =~= seq![quote_arg(a)]);
    if args.len() > 0 {
        let m = args.map_values(q);
        assert(args.push(a).map_values(q) =~= m.push(quote_arg(a)));
        assert(m.push(quote_arg(a)).drop_last() =~= m);
        assert(join_spaced(m.push(quote_arg(a))) == join_spaced(m) + seq![' '] + quote_arg(a));
    }
}

proof fn trim_start_index(s: Seq<char>) -> (i: int)
    ensures
        0 <= i <= s.len(),
        trim_start(s) == s.subrange(i, s.len() as int),
        forall|k: int| 0 <= k < i ==> is_white_space(#[trigger] s[k]),
        i < s.len() ==> !is_white_space(s[i]),
    decreases s.len(),
{
    if s.len() > 0 && is_white_space(s[0]) {
        let i0 = trim_start_index(s.drop_first());
        assert(s.drop_first().subrange(i0, s.drop_first().len() as int) =~= s.subrange(
            i0 + 1,
            s.len() as int,
        ));
        assert forall|k: int| 0 <= k < i0 + 1 implies is_white_space(#[trigger] s[k]) by {
            if k > 0 {
                assert(s[k] == s.drop_first()[k - 1]);
            }
        }
        i0 + 1
    } else {
        assert(s.subrange(0, s.len() as int) =~= s);
        0
    }
}

proof fn trim_end_index(s: Seq<char>) -> (j: int)
    ensures
        0 <= j <= s.len(),
        trim_end(s) == s.subrange(0, j),
        forall|k: int| j <= k < s.len() ==> is_white_space(#[trigger] s[k]),
        j > 0 ==> !is_white_space(s[j - 1]),
    decreases s.len(),
{
    if s.len() > 0 && is_white_space(s.last()) {
        let j0 = trim_end_index(s.drop_last());
        assert(s.drop_last().subrange(0, j0) =~= s.subrange(0, j0));
        assert forall|k: int| j0 <= k < s.len() implies is_white_space(#[trigger] s[k]) by {
            if k < s.len() - 1 {
                assert(s[k] == s.drop_last()[k]);
            }
        }
        j0
    } else {
        assert(s.subrange(0, s.len() as int) =~= s);
        s.len() as int
    }
}

/// Trimming removes white space from both ends and nothing else: the result
/// is a stretch `s[i..j]` of the text, everything before `i` and from `j`
/// on is white space, and the stretch neither starts nor ends with white
/// space.
pub proof fn lemma_trim_removes_only_outer_white_space(s: Seq<char>)
    ensures
        exists|i: int, j: int|
            #![trigger s.subrange(i, j)]
            0 <= i <= j <= s.len() && trim(s) == s.subrange(i, j) && (forall|k: int|
                0 <= k < i ==> is_white_space(#[trigger] s[k])) && (forall|k: int|
                j <= k < s.len() ==> is_white_space(#[trigger] s[k])) && (i < j ==> !is_white_space(
                s[i],
            ) && !is_white_space(s[j - 1])),
{
    let i = trim_start_index(s);
    let a = s.subrange(i, s.len() as int);
    let j0 = trim_end_index(a);
    let j = i + j0;
    assert(a.subrange(0, j0) =~= s.subrange(i, j));
    assert forall|k: int| j <= k < s.len() implies is_white_space(#[trigger] s[k]) by {
        assert(s[k] == a[k - i]);
    }
    if i < j {
        assert(s[i] == a[0]);
        assert(s[j - 1] == a[j0 - 1]);
    }
    assert(trim(s) == s.subrange(i, j));
}

/// The path of `name` in `dir`: `dir` itself, then one `/` unless `dir` is
/// empty or already ends in one, then `name`.
pub proof fn lemma_join_path_shape(dir: Seq<char>, name: Seq<char>)
    ensures
        dir.len() == 0 ==> join_path(dir, name) == name,
        dir.len() > 0 ==> {
            let r = join_path(dir, name);
            &&& r.take(dir.len() as int) == dir
            &&& r.skip(r.len() - name.len()) == name
            &&& r[r.len() - name.len() - 1] == '/'
            &&& r.len() == dir.len() + name.len() + (if dir.last() == '/' {
                0int
            } else {
                1int
            })
        },
{
    if dir.len() > 0 {
        let r = join_path(dir, name);
        assert(r.take(dir.len() as int) =~= dir);
        assert(r.skip(r.len() - name.len()) =~= name);
    }
}

} // verus!
