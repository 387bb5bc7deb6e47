use heck::{ToKebabCase, ToShoutySnakeCase};
use vstd::prelude::*;

use crate::color::{hex_char, hex_rgb, Rgba8};

verus! {

/// What `heck`'s kebab case conversion gives for a string.
pub uninterp spec fn kebab_case(s: Seq<char>) -> Seq<char>;

/// What `heck`'s shouty snake case conversion gives for a string.
pub uninterp spec fn shouty_snake_case(s: Seq<char>) -> Seq<char>;

/// Calls `heck::ToKebabCase::to_kebab_case`; its result is named by `kebab_case`. heck splits
/// the string into words at every character that is not alphanumeric and writes the words in
/// lower case joined by `-`, so the result holds no `_`.
#[verifier::external_body]
fn to_kebab_case(s: &str) -> (r: String)
    ensures
        r@ == kebab_case(s@),
        has_no_underscore(r@),
{
    s.to_kebab_case()
}

/// Calls `heck::ToShoutySnakeCase::to_shouty_snake_case`; its result is named by
/// `shouty_snake_case`.
#[verifier::external_body]
fn to_shouty_snake_case(s: &str) -> (r: String)
    ensures
        r@ == shouty_snake_case(s@),
{
    s.to_shouty_snake_case()
}

/// The decimal digits of `n`.
pub open spec fn decimal(n: nat) -> Seq<char>
    decreases n,
{
    if n < 10 {
        seq![hex_char(n as int)]
    } else {
        decimal(n / 10) + seq![hex_char((n % 10) as int)]
    }
}

/// The decimal digit `d` as a string.
fn digit_str(d: usize) -> (s: &'static str)
    requires
        d < 10,
    ensures
        s@ == seq![hex_char(d as int)],
{
    proof {
        reveal_strlit("0");
        reveal_strlit("1");
        reveal_strlit("2");
        reveal_strlit("3");
        reveal_strlit("4");
        reveal_strlit("5");
        reveal_strlit("6");
        reveal_strlit("7");
        reveal_strlit("8");
        reveal_strlit("9");
    }
    if d == 0 {
        "0"
    } else if d == 1 {
        "1"
    } else if d == 2 {
        "2"
    } else if d == 3 {
        "3"
    } else if d == 4 {
        "4"
    } else if d == 5 {
        "5"
    } else if d == 6 {
        "6"
    } else if d == 7 {
        "7"
    } else if d == 8 {
        "8"
    } else {
        "9"
    }
}

/// Appends the decimal digits of `n` to `s`.
pub fn push_decimal(s: &mut String, n: usize)
    ensures
        final(s)@ == old(s)@ + decimal(n as nat),
    decreases n,
{
    if n >= 10 {
        push_decimal(s, n / 10);
    }
    s.append(digit_str(n % 10));
    proof {
        if n < 10 {
            assert(n % 10 == n);
        }
    }
}

/// The decimal digits of `n` as a string.
pub fn decimal_string(n: usize) -> (s: String)
    ensures
        s@ == decimal(n as nat),
{
    let mut s = String::new();
    push_decimal(&mut s, n);
    s
}

/// Number of times `v` occurs in `s`.
pub open spec fn occurrences(s: Seq<Seq<char>>, v: Seq<char>) -> nat
    decreases s.len(),
{
    if s.len() == 0 {
        0
    } else {
        occurrences(s.drop_last(), v) + if s.last() == v { 1nat } else { 0nat }
    }
}

/// The `i`-th name made unique: a name seen `k > 0` times before gets the suffix `_k`.
pub open spec fn unique_name(names: Seq<Seq<char>>, i: int) -> Seq<char> {
    let k = occurrences(names.take(i), names[i]);
    if k == 0 {
        names[i]
    } else {
        names[i] + seq!['_'] + decimal(k)
    }
}

/// Gives each repeated name a numbered suffix: the second `x` becomes `x_1`, the third `x_2`,
/// and so on; first occurrences are left as they are.
pub fn unique_names(names: &Vec<String>) -> (out: Vec<String>)
    ensures
        out.len() == names.len(),
        forall|i: int|
            0 <= i < names.len() ==> #[trigger] out[i]@ == unique_name(
                names@.map_values(|n: String| n@),
                i,
            ),
{
    let ghost view = names@.map_values(|n: String| n@);
    let mut seen: Vec<String> = Vec::new();
    let mut counts: Vec<usize> = Vec::new();
    let mut out: Vec<String> = Vec::new();
    let mut i: usize = 0;
    while i < names.len()
        invariant
            i <= names.len(),
            view == names@.map_values(|n: String| n@),
            seen.len() == counts.len(),
            out.len() == i,
            forall|k: int| 0 <= k < i ==> #[trigger] out[k]@ == unique_name(view, k),
            forall|j: int|
                0 <= j < seen.len() ==> occurrences(view.take(i as int), #[trigger] seen[j]@)
                    == counts[j] + 1,
            forall|j: int| 0 <= j < seen.len() ==> #[trigger] counts[j] < i,
            forall|a: int, b: int| 0 <= a < b < seen.len() ==> #[trigger] seen[a]@ != #[trigger] seen[b]@,
            forall|v: Seq<char>|
                occurrences(view.take(i as int), v) > 0 ==> exists|j: int|
                    0 <= j < seen.len() && #[trigger] seen[j]@ == v,
        decreases names.len() - i,
    {
        let name = &names[i];
        let mut j: usize = 0;
        let mut found = false;
        while !found && j < seen.len()
            invariant
                j <= seen.len(),
                found ==> j < seen.len() && seen[j as int]@ == name@,
                forall|k: int| 0 <= k < j ==> #[trigger] seen[k]@ != name@,
            decreases seen.len() - j + if found { 0int } else { 1int },
        {
            if seen[j].eq(name) {
                found = true;
            } else {
                j += 1;
            }
        }
        proof {
            assert(view.take(i + 1).drop_last() == view.take(i as int));
            assert(view.take(i + 1).last() == view[i as int]);
            assert(view[i as int] == name@);
            assert forall|v: Seq<char>| #[trigger] occurrences(view.take(i + 1), v) == occurrences(view.take(i as int), v)
                + if view[i as int] == v { 1nat } else { 0nat } by {}
            if !found {
                if occurrences(view.take(i as int), name@) > 0 {
                    let k = choose|k: int| 0 <= k < seen.len() && #[trigger] seen[k]@ == name@;
                    assert(seen[k]@ != name@);
                }
            }
        }
        let ghost old_seen = seen@;
        if found {
            let c = counts[j] + 1;
            counts.set(j, c);
            let mut unique = name.clone();
            proof {
                reveal_strlit("_");
            }
            unique.append("_");
            push_decimal(&mut unique, c);
            out.push(unique);
        } else {
            seen.push(name.clone());
            counts.push(0);
            out.push(name.clone());
        }
        proof {
            assert forall|v: Seq<char>| #[trigger] occurrences(view.take(i + 1), v) > 0 implies exists|j: int|
                0 <= j < seen.len() && #[trigger] seen[j]@ == v by {
                if v == name@ {
                    if found {
                        assert(seen[j as int]@ == v);
                    } else {
                        assert(seen[seen.len() - 1]@ == v);
                    }
                } else {
                    assert(occurrences(view.take(i as int), v) > 0);
                    let k = choose|k: int| 0 <= k < old_seen.len() && #[trigger] old_seen[k]@ == v;
                    assert(seen[k]@ == v);
                }
            }
        }
        i += 1;
    }
    out
}


/// No character of `s` is an underscore.
pub open spec fn has_no_underscore(s: Seq<char>) -> bool {
    forall|c: int| 0 <= c < s.len() ==> s[c] != '_'
}

/// The decimal digits of a number hold no underscore.
proof fn lemma_decimal_no_underscore(n: nat)
    ensures
        has_no_underscore(decimal(n)),
        decimal(n).len() >= 1,
        n >= 10 ==> decimal(n).len() >= 2,
    decreases n,
{
    if n >= 10 {
        lemma_decimal_no_underscore(n / 10);
        let d = (n % 10) as int;
        assert(hex_char(d) as u32 == 48 + d);
    } else {
        assert(hex_char(n as int) as u32 == 48 + n);
    }
}

/// Different numbers have different decimal digits.
proof fn lemma_decimal_injective(a: nat, b: nat)
    requires
        decimal(a) == decimal(b),
    ensures
        a == b,
    decreases a,
{
    lemma_decimal_no_underscore(a);
    lemma_decimal_no_underscore(b);
    if a < 10 && b < 10 {
        assert(decimal(a)[0] == hex_char(a as int));
        assert(hex_char(a as int) as u32 == 48 + a);
        assert(hex_char(b as int) as u32 == 48 + b);
    } else if a >= 10 && b >= 10 {
        let da = (a % 10) as int;
        let db = (b % 10) as int;
        assert(decimal(a).last() == hex_char(da));
        assert(decimal(b).last() == hex_char(db));
        assert(hex_char(da) as u32 == 48 + da);
        assert(hex_char(db) as u32 == 48 + db);
        assert(decimal(a).drop_last() == decimal(a / 10));
        assert(decimal(b).drop_last() == decimal(b / 10));
        lemma_decimal_injective(a / 10, b / 10);
    }
}

/// A name occurs in a longer prefix at least as often as in a shorter one, and once more when
/// the shorter prefix is followed by the name itself.
proof fn lemma_occurrences_grow(s: Seq<Seq<char>>, i: int, j: int, v: Seq<char>)
    requires
        0 <= i < j <= s.len(),
    ensures
        occurrences(s.take(j), v) >= occurrences(s.take(i), v) + if s[i] == v { 1int } else { 0int },
    decreases j - i,
{
    if j == i + 1 {
        assert(s.take(j).drop_last() == s.take(i));
        assert(s.take(j).last() == s[i]);
    } else {
        lemma_occurrences_grow(s, i, j - 1, v);
        assert(s.take(j).drop_last() == s.take(j - 1));
    }
}

/// Two names without underscores that differ stay different after each gets `_` and a suffix,
/// and a name without underscore differs from any name with a suffix.
proof fn lemma_suffixed_differ(a: Seq<char>, b: Seq<char>, da: Seq<char>, db: Seq<char>)
    requires
        has_no_underscore(a),
        has_no_underscore(b),
    ensures
        a != b ==> a + seq!['_'] + da != b + seq!['_'] + db,
        a != b + seq!['_'] + db,
{
    let ua = a + seq!['_'] + da;
    let ub = b + seq!['_'] + db;
    if a != b && ua == ub {
        if a.len() == b.len() {
            assert(a =~= ua.take(a.len() as int));
            assert(b =~= ub.take(b.len() as int));
        } else if a.len() < b.len() {
            assert(ua[a.len() as int] == '_');
            assert(ub[a.len() as int] == b[a.len() as int]);
        } else {
            assert(ub[b.len() as int] == '_');
            assert(ua[b.len() as int] == a[b.len() as int]);
        }
    }
    if a == ub {
        assert(ub[b.len() as int] == '_');
    }
}

/// Names without underscores come out of [`unique_name`] pairwise different.
pub proof fn lemma_unique_names_distinct(names: Seq<Seq<char>>, i: int, j: int)
    requires
        0 <= i < j < names.len(),
        forall|k: int| 0 <= k < names.len() ==> #[trigger] has_no_underscore(names[k]),
    ensures
        unique_name(names, i) != unique_name(names, j),
{
    let v = names[i];
    let w = names[j];
    let ki = occurrences(names.take(i), v);
    let kj = occurrences(names.take(j), w);
    assert(has_no_underscore(v));
    assert(has_no_underscore(w));
    lemma_occurrences_grow(names, i, j, w);
    if v == w {
        assert(kj >= ki + 1);
        if ki == 0 {
            lemma_suffixed_differ(v, w, seq![], decimal(kj));
        } else if unique_name(names, i) == unique_name(names, j) {
            let ui = v + seq!['_'] + decimal(ki);
            let uj = w + seq!['_'] + decimal(kj);
            assert(decimal(ki) =~= ui.skip(v.len() + 1int));
            assert(decimal(kj) =~= uj.skip(w.len() + 1int));
            lemma_decimal_injective(ki, kj);
        }
    } else {
        lemma_suffixed_differ(v, w, decimal(ki), decimal(kj));
        lemma_suffixed_differ(w, v, decimal(kj), decimal(ki));
    }
}

/// Number of shades of each palette.
pub const SHADE_COUNT: usize = 11;

/// The name of shade `i` of a palette, as on the usual 50 to 950 scale.
pub open spec fn tint_name(i: int) -> nat {
    if i == 0 {
        50
    } else if i == 10 {
        950
    } else {
        (i * 100) as nat
    }
}

/// The scale name of shade `i` (`TINTS` in tables of tailwind-like palettes).
pub fn tint(i: usize) -> (t: usize)
    requires
        i < SHADE_COUNT,
    ensures
        t == tint_name(i as int),
{
    if i == 0 {
        50
    } else if i == 10 {
        950
    } else {
        i * 100
    }
}

/// The lines joined by line breaks.
pub open spec fn join_lines(lines: Seq<Seq<char>>) -> Seq<char>
    decreases lines.len(),
{
    if lines.len() == 0 {
        seq![]
    } else if lines.len() == 1 {
        lines[0]
    } else {
        join_lines(lines.drop_last()) + seq!['\n'] + lines.last()
    }
}

/// The Rust constant for one shade: `pub const NAME_TINT: Srgba = srgba!("#rrggbb");`.
pub open spec fn hex_const_line(name: Seq<char>, tint: nat, color: Rgba8) -> Seq<char> {
    "pub const "@ + name + seq!['_'] + decimal(tint) + ": Srgba = srgba!(\""@ + hex_rgb(
        color.red,
        color.green,
        color.blue,
    ) + "\");"@
}

/// Every palette has one color for each shade.
pub open spec fn well_shaded(shades: Seq<Vec<Rgba8>>) -> bool {
    forall|p: int| 0 <= p < shades.len() ==> (#[trigger] shades[p]).len() == SHADE_COUNT
}

/// The lines of the Rust constants of all shades: palette by palette, shade by shade.
pub open spec fn hex_const_lines(names: Seq<Seq<char>>, shades: Seq<Vec<Rgba8>>) -> Seq<Seq<char>> {
    Seq::new(
        (names.len() * SHADE_COUNT) as nat,
        |k: int|
            hex_const_line(
                names[k / SHADE_COUNT as int],
                tint_name(k % SHADE_COUNT as int),
                shades[k / SHADE_COUNT as int]@[k % SHADE_COUNT as int],
            ),
    )
}

/// Appends one constant line to `s`.
fn push_hex_const_line(s: &mut String, name: &String, tint: usize, color: Rgba8)
    ensures
        final(s)@ == old(s)@ + hex_const_line(name@, tint as nat, color),
{
    proof {
        reveal_strlit("pub const ");
        reveal_strlit("_");
        reveal_strlit(": Srgba = srgba!(\"");
        reveal_strlit("\");");
    }
    s.append("pub const ");
    s.append(name.as_str());
    s.append("_");
    push_decimal(s, tint);
    s.append(": Srgba = srgba!(\"");
    let hex = color.to_hex_string();
    s.append(hex.as_str());
    s.append("\");");
    proof {
        assert(final(s)@ =~= old(s)@ + hex_const_line(name@, tint as nat, color));
    }
}

/// The shades of all palettes as Rust constants, one per line: the palette names are turned into
/// shouty snake case and made unique, and each shade is named after its place on the scale.
pub fn export_hex_list(names: &Vec<String>, shades: &Vec<Vec<Rgba8>>) -> (s: String)
    requires
        names.len() == shades.len(),
        names.len() * SHADE_COUNT <= usize::MAX,
        well_shaded(shades@),
    ensures
        s@ == join_lines(
            hex_const_lines(
                Seq::new(
                    names.len() as nat,
                    |i: int|
                        unique_name(
                            names@.map_values(|n: String| shouty_snake_case(n@)),
                            i,
                        ),
                ),
                shades@,
            ),
        ),
{
    let mut converted: Vec<String> = Vec::new();
    let mut i: usize = 0;
    while i < names.len()
        invariant
            i <= names.len(),
            converted@.map_values(|n: String| n@) == names@.take(i as int).map_values(
                |n: String| shouty_snake_case(n@),
            ),
        decreases names.len() - i,
    {
        converted.push(to_shouty_snake_case(names[i].as_str()));
        proof {
            assert(names@.take(i + 1).map_values(|n: String| shouty_snake_case(n@))
                =~= names@.take(i as int).map_values(|n: String| shouty_snake_case(n@)).push(
                shouty_snake_case(names@[i as int]@),
            ));
            assert(converted@.map_values(|n: String| n@) =~= converted@.drop_last().map_values(
                |n: String| n@,
            ).push(converted@.last()@));
        }
        i += 1;
    }
    proof {
        assert(names@.take(names.len() as int) == names@);
    }
    let unique = unique_names(&converted);
    let ghost unames = Seq::new(
        names.len() as nat,
        |i: int| unique_name(names@.map_values(|n: String| shouty_snake_case(n@)), i),
    );
    let ghost lines = hex_const_lines(unames, shades@);
    proof {
        assert(converted@.map_values(|n: String| n@) == names@.map_values(
            |n: String| shouty_snake_case(n@),
        ));
        assert forall|k: int| 0 <= k < unique.len() implies #[trigger] unique[k]@ == unames[k] by {}
    }
    let mut s = String::new();
    let mut p: usize = 0;
    while p < unique.len()
        invariant
            p <= unique.len(),
            unique.len() == names.len(),
            names.len() == shades.len(),
            names.len() * SHADE_COUNT <= usize::MAX,
            well_shaded(shades@),
            lines == hex_const_lines(unames, shades@),
            unames.len() == names.len(),
            lines.len() == names.len() * SHADE_COUNT,
            forall|k: int| 0 <= k < unique.len() ==> #[trigger] unique[k]@ == unames[k],
            s@ == join_lines(lines.take(p * SHADE_COUNT)),
        decreases unique.len() - p,
    {
        let mut t: usize = 0;
        while t < SHADE_COUNT
            invariant
                t <= SHADE_COUNT,
                p < unique.len(),
                unique.len() == names.len(),
                names.len() == shades.len(),
                names.len() * SHADE_COUNT <= usize::MAX,
                well_shaded(shades@),
                lines == hex_const_lines(unames, shades@),
                unames.len() == names.len(),
                lines.len() == names.len() * SHADE_COUNT,
                unique[p as int]@ == unames[p as int],
                s@ == join_lines(lines.take(p * SHADE_COUNT + t)),
            decreases SHADE_COUNT - t,
        {
            let k = p * SHADE_COUNT + t;
            proof {
                assert(k < names.len() * SHADE_COUNT) by (nonlinear_arith)
                    requires k == p * SHADE_COUNT + t, t < SHADE_COUNT, p < names.len();
                assert((k as int) / (SHADE_COUNT as int) == p && (k as int) % (SHADE_COUNT as int) == t) by (nonlinear_arith)
                    requires k == p * SHADE_COUNT + t, t < SHADE_COUNT;
                assert(lines.take(k + 1).drop_last() == lines.take(k as int));
            }
            if k > 0 {
                proof {
                    reveal_strlit("\n");
                }
                s.append("\n");
            }
            let ghost before = s@;
            push_hex_const_line(&mut s, &unique[p], tint(t), shades[p][t]);
            proof {
                assert(lines.take(k + 1).last() == lines[k as int]);
                assert(s@ == join_lines(lines.take(k + 1)));
            }
            t += 1;
        }
        p += 1;
    }
    proof {
        assert(lines.take(unique.len() * SHADE_COUNT) == lines);
    }
    s
}


/// The key of palette `p` in an export table: its name in kebab case, made unique.
pub open spec fn export_key(names: Seq<String>, p: int) -> Seq<char> {
    unique_name(names.map_values(|n: String| kebab_case(n@)), p)
}

/// The hex string of shade `t` of palette `p`.
pub open spec fn shade_hex(shades: Seq<Vec<Rgba8>>, p: int, t: int) -> Seq<char> {
    hex_rgb(shades[p][t].red, shades[p][t].green, shades[p][t].blue)
}

/// The keys of the entries are pairwise different.
pub open spec fn distinct_keys<V>(entries: Seq<(String, V)>) -> bool {
    forall|p: int, q: int| 0 <= p < q < entries.len() ==> #[trigger] entries[p].0@ != #[trigger] entries[q].0@
}

/// A Tailwind color table: one entry per palette, in order, keyed by [`export_key`], with the hex
/// strings of all its shades; no two keys are equal.
pub open spec fn is_tailwind_table(names: Seq<String>, shades: Seq<Vec<Rgba8>>, entries: Seq<(String, Vec<String>)>) -> bool {
    &&& entries.len() == names.len()
    &&& distinct_keys(entries)
    &&& forall|p: int|
        0 <= p < names.len() ==> {
            let (name, hexes) = #[trigger] entries[p];
            &&& name@ == export_key(names, p)
            &&& hexes.len() == shades[p].len()
            &&& forall|t: int| 0 <= t < hexes.len() ==> #[trigger] hexes[t]@ == shade_hex(shades, p, t)
        }
}

/// A design token table: one entry per palette, in order, keyed by [`export_key`], with each
/// shade's scale name and hex string; no two keys are equal.
pub open spec fn is_design_token_table(
    names: Seq<String>,
    shades: Seq<Vec<Rgba8>>,
    entries: Seq<(String, Vec<(String, String)>)>,
) -> bool {
    &&& entries.len() == names.len()
    &&& distinct_keys(entries)
    &&& forall|p: int|
        0 <= p < names.len() ==> {
            let (name, tokens) = #[trigger] entries[p];
            &&& name@ == export_key(names, p)
            &&& tokens.len() == SHADE_COUNT
            &&& forall|t: int|
                0 <= t < SHADE_COUNT ==> (#[trigger] tokens[t]).0@ == decimal(tint_name(t))
                    && tokens[t].1@ == shade_hex(shades, p, t)
        }
}

/// The design token table and the Tailwind table of the same palettes have the same keys in the
/// same order, and the token of shade `t` carries the `t`-th hex string of the Tailwind entry.
pub proof fn lemma_design_tokens_match_tailwind(
    names: Seq<String>,
    shades: Seq<Vec<Rgba8>>,
    tailwind: Seq<(String, Vec<String>)>,
    tokens: Seq<(String, Vec<(String, String)>)>,
)
    requires
        names.len() == shades.len(),
        well_shaded(shades),
        is_tailwind_table(names, shades, tailwind),
        is_design_token_table(names, shades, tokens),
    ensures
        tokens.len() == tailwind.len(),
        forall|p: int| 0 <= p < tokens.len() ==> #[trigger] tokens[p].0@ == tailwind[p].0@,
        forall|p: int, t: int|
            0 <= p < tokens.len() && 0 <= t < SHADE_COUNT ==> #[trigger] tokens[p].1[t].1@ == tailwind[p].1[t]@
                && tokens[p].1[t].0@ == decimal(tint_name(t)),
{
    assert forall|p: int, t: int|
        0 <= p < tokens.len() && 0 <= t < SHADE_COUNT implies #[trigger] tokens[p].1[t].1@ == tailwind[p].1[t]@
            && tokens[p].1[t].0@ == decimal(tint_name(t)) by {
        assert(shades[p].len() == SHADE_COUNT);
        let (n1, hexes) = tailwind[p];
        let (n2, toks) = tokens[p];
        assert(hexes[t]@ == shade_hex(shades, p, t));
        assert(toks[t].1@ == shade_hex(shades, p, t));
    }
}

/// The palette names in kebab case, made unique.
fn unique_kebab_names(names: &Vec<String>) -> (out: Vec<String>)
    ensures
        out.len() == names.len(),
        forall|i: int|
            0 <= i < names.len() ==> #[trigger] out[i]@ == unique_name(
                names@.map_values(|n: String| kebab_case(n@)),
                i,
            ),
        forall|i: int, j: int| 0 <= i < j < names.len() ==> #[trigger] out[i]@ != #[trigger] out[j]@,
{
    let mut converted: Vec<String> = Vec::new();
    let mut i: usize = 0;
    while i < names.len()
        invariant
            i <= names.len(),
            converted@.map_values(|n: String| n@) == names@.take(i as int).map_values(
                |n: String| kebab_case(n@),
            ),
            forall|k: int| 0 <= k < converted.len() ==> has_no_underscore(#[trigger] converted[k]@),
        decreases names.len() - i,
    {
        converted.push(to_kebab_case(names[i].as_str()));
        proof {
            assert(names@.take(i + 1).map_values(|n: String| kebab_case(n@)) =~= names@.take(
                i as int,
            ).map_values(|n: String| kebab_case(n@)).push(kebab_case(names@[i as int]@)));
            assert(converted@.map_values(|n: String| n@) =~= converted@.drop_last().map_values(
                |n: String| n@,
            ).push(converted@.last()@));
        }
        i += 1;
    }
    proof {
        assert(names@.take(names.len() as int) == names@);
    }
    let out = unique_names(&converted);
    proof {
        let view = names@.map_values(|n: String| kebab_case(n@));
        assert(view == converted@.map_values(|n: String| n@));
        assert forall|k: int| 0 <= k < view.len() implies #[trigger] has_no_underscore(view[k]) by {
            assert(view[k] == converted[k]@);
        }
        assert forall|i: int, j: int| 0 <= i < j < names.len() implies #[trigger] out[i]@ != #[trigger] out[j]@ by {
            lemma_unique_names_distinct(view, i, j);
        }
    }
    out
}

/// The hex strings of a list of colors.
fn hex_strings(colors: &Vec<Rgba8>) -> (out: Vec<String>)
    ensures
        out.len() == colors.len(),
        forall|t: int|
            0 <= t < colors.len() ==> #[trigger] out[t]@ == hex_rgb(
                colors[t].red,
                colors[t].green,
                colors[t].blue,
            ),
{
    let mut out: Vec<String> = Vec::new();
    let mut t: usize = 0;
    while t < colors.len()
        invariant
            t <= colors.len(),
            out.len() == t,
            forall|k: int|
                0 <= k < t ==> #[trigger] out[k]@ == hex_rgb(
                    colors[k].red,
                    colors[k].green,
                    colors[k].blue,
                ),
        decreases colors.len() - t,
    {
        out.push(colors[t].to_hex_string());
        t += 1;
    }
    out
}

/// The entries of a Tailwind color table: for each palette its name in kebab case, made unique,
/// with the hex strings of its shades.
pub fn tailwind_export(names: &Vec<String>, shades: &Vec<Vec<Rgba8>>) -> (entries: Vec<(String, Vec<String>)>)
    requires
        names.len() == shades.len(),
    ensures
        is_tailwind_table(names@, shades@, entries@),
{
    let unique = unique_kebab_names(names);
    let mut entries: Vec<(String, Vec<String>)> = Vec::new();
    let mut p: usize = 0;
    while p < names.len()
        invariant
            p <= names.len(),
            names.len() == shades.len(),
            unique.len() == names.len(),
            forall|i: int|
                0 <= i < names.len() ==> #[trigger] unique[i]@ == unique_name(
                    names@.map_values(|n: String| kebab_case(n@)),
                    i,
                ),
            entries.len() == p,
            forall|i: int, j: int| 0 <= i < j < names.len() ==> #[trigger] unique[i]@ != #[trigger] unique[j]@,
            forall|q: int| 0 <= q < p ==> (#[trigger] entries[q]).0@ == unique[q]@,
            forall|q: int|
                0 <= q < p ==> {
                    let (name, hexes) = #[trigger] entries[q];
                    &&& name@ == unique_name(names@.map_values(|n: String| kebab_case(n@)), q)
                    &&& hexes.len() == shades[q].len()
                    &&& forall|t: int|
                        0 <= t < hexes.len() ==> #[trigger] hexes[t]@ == hex_rgb(
                            shades[q][t].red,
                            shades[q][t].green,
                            shades[q][t].blue,
                        )
                },
        decreases names.len() - p,
    {
        entries.push((unique[p].clone(), hex_strings(&shades[p])));
        p += 1;
    }
    entries
}

/// The entries of a design token table: for each palette its name in kebab case, made unique,
/// with each shade's scale name and hex string.
pub fn design_token_export(names: &Vec<String>, shades: &Vec<Vec<Rgba8>>) -> (entries: Vec<(String, Vec<(String, String)>)>)
    requires
        names.len() == shades.len(),
        well_shaded(shades@),
    ensures
        is_design_token_table(names@, shades@, entries@),
{
    let unique = unique_kebab_names(names);
    let mut entries: Vec<(String, Vec<(String, String)>)> = Vec::new();
    let mut p: usize = 0;
    while p < names.len()
        invariant
            p <= names.len(),
            names.len() == shades.len(),
            well_shaded(shades@),
            unique.len() == names.len(),
            forall|i: int|
                0 <= i < names.len() ==> #[trigger] unique[i]@ == unique_name(
                    names@.map_values(|n: String| kebab_case(n@)),
                    i,
                ),
            entries.len() == p,
            forall|i: int, j: int| 0 <= i < j < names.len() ==> #[trigger] unique[i]@ != #[trigger] unique[j]@,
            forall|q: int| 0 <= q < p ==> (#[trigger] entries[q]).0@ == unique[q]@,
            forall|q: int|
                0 <= q < p ==> {
                    let (name, tokens) = #[trigger] entries[q];
                    &&& name@ == unique_name(names@.map_values(|n: String| kebab_case(n@)), q)
                    &&& tokens.len() == SHADE_COUNT
                    &&& forall|t: int|
                        0 <= t < SHADE_COUNT ==> (#[trigger] tokens[t]).0@ == decimal(tint_name(t))
                            && tokens[t].1@ == hex_rgb(
                            shades[q][t].red,
                            shades[q][t].green,
                            shades[q][t].blue,
                        )
                },
        decreases names.len() - p,
    {
        let colors = &shades[p];
        assert(colors.len() == SHADE_COUNT);
        let mut tokens: Vec<(String, String)> = Vec::new();
        let mut t: usize = 0;
        while t < SHADE_COUNT
            invariant
                t <= SHADE_COUNT,
                colors.len() == SHADE_COUNT,
                tokens.len() == t,
                forall|k: int|
                    0 <= k < t ==> (#[trigger] tokens[k]).0@ == decimal(tint_name(k)) && tokens[k].1@
                        == hex_rgb(colors[k].red, colors[k].green, colors[k].blue),
            decreases SHADE_COUNT - t,
        {
            tokens.push((decimal_string(tint(t)), colors[t].to_hex_string()));
            t += 1;
        }
        entries.push((unique[p].clone(), tokens));
        p += 1;
    }
    entries
}

} // verus!
