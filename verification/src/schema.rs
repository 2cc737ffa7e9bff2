//! Schema text processing for resetting the migration history: dropping SQLite's internal
//! objects from a `.schema` dump, and generating the `DROP` statements that undo a schema.
use vstd::prelude::*;
use crate::text::{lemma_lines_hold_no_newline, lemma_lines_of_terminated, newline_terminated, plain_line, join_with, append_chars, chars_of, char_is_whitespace, contains, ends_with, is_ws, lines, lines_from, next_line, next_nl, occurs_at, slice_ends_with, slice_find_from, slice_starts_with, starts_with, string_of, sub_vec, trim, trim_bounds, trim_char, trim_char_bounds, views};

verus! {

/// The part of `s` before its first whitespace character or `'('`.
pub open spec fn first_word(s: Seq<char>) -> Seq<char>
    decreases s.len(),
{
    if s.len() == 0 || is_ws(s[0]) || s[0] == '(' {
        Seq::empty()
    } else {
        seq![s[0]] + first_word(s.drop_first())
    }
}

/// The name of the object that the statement `line` creates, where `line` starts with `prefix`
/// (such as `CREATE TABLE`): the first word after the prefix and an optional `IF NOT EXISTS`,
/// with surrounding double quotes and backticks removed. `None` when `line` does not start with
/// `prefix` or the name is empty.
pub open spec fn object_name(line: Seq<char>, prefix: Seq<char>) -> Option<Seq<char>> {
    if !starts_with(line, prefix) {
        None
    } else {
        let after_prefix = trim(line.subrange(prefix.len() as int, line.len() as int));
        let ine = "IF NOT EXISTS"@;
        let rest = if starts_with(after_prefix, ine) {
            trim(after_prefix.subrange(ine.len() as int, after_prefix.len() as int))
        } else {
            after_prefix
        };
        let name = trim_char(trim_char(trim(first_word(rest)), '"'), '`');
        if name.len() == 0 {
            None
        } else {
            Some(name)
        }
    }
}

/// The end of `first_word(s[lo..hi])` inside `s`.
fn first_word_end(s: &Vec<char>, lo: usize, hi: usize) -> (r: usize)
    requires
        lo <= hi <= s@.len(),
    ensures
        lo <= r <= hi,
        s@.subrange(lo as int, r as int) == first_word(s@.subrange(lo as int, hi as int)),
{
    let mut k = lo;
    while k < hi && !char_is_whitespace(s[k]) && s[k] != '('
        invariant
            lo <= k <= hi <= s@.len(),
            first_word(s@.subrange(lo as int, hi as int)) == s@.subrange(lo as int, k as int)
                + first_word(s@.subrange(k as int, hi as int)),
        decreases hi - k,
    {
        assert(s@.subrange(k as int, hi as int).drop_first() =~= s@.subrange(k + 1, hi as int));
        assert(s@.subrange(lo as int, k + 1) =~= s@.subrange(lo as int, k as int) + seq![s@[k as int]]);
        k = k + 1;
    }
    assert(s@.subrange(lo as int, k as int) + Seq::<char>::empty() =~= s@.subrange(lo as int, k as int));
    k
}

/// Executable `object_name` on character vectors.
pub fn object_name_of(line: &Vec<char>, prefix: &Vec<char>) -> (r: Option<Vec<char>>)
    ensures
        match r {
            Some(n) => object_name(line@, prefix@) == Some(n@),
            None => object_name(line@, prefix@) is None,
        },
{
    if !slice_starts_with(line, 0, line.len(), prefix) {
        assert(line@.subrange(0, line@.len() as int) =~= line@);
        return None;
    }
    assert(line@.subrange(0, line@.len() as int) =~= line@);
    let (a0, a1) = trim_bounds(line, prefix.len(), line.len());
    let after_prefix = sub_vec(line, a0, a1);
    let ine = chars_of("IF NOT EXISTS");
    let rest = if slice_starts_with(&after_prefix, 0, after_prefix.len(), &ine) {
        assert(after_prefix@.subrange(0, after_prefix@.len() as int) =~= after_prefix@);
        let (b0, b1) = trim_bounds(&after_prefix, ine.len(), after_prefix.len());
        sub_vec(&after_prefix, b0, b1)
    } else {
        assert(after_prefix@.subrange(0, after_prefix@.len() as int) =~= after_prefix@);
        after_prefix
    };
    let w = first_word_end(&rest, 0, rest.len());
    assert(rest@.subrange(0, rest@.len() as int) =~= rest@);
    let (c0, c1) = trim_bounds(&rest, 0, w);
    let (d0, d1) = trim_char_bounds(&rest, c0, c1, '"');
    let (e0, e1) = trim_char_bounds(&rest, d0, d1, '`');
    if e0 == e1 {
        return None;
    }
    Some(sub_vec(&rest, e0, e1))
}

/// The name of the object that the `CREATE` statement `line` defines, after `prefix` (see
/// `object_name`).
pub fn extract_object_name(line: &str, prefix: &str) -> (r: Option<String>)
    ensures
        match r {
            Some(n) => object_name(line@, prefix@) == Some(n@),
            None => object_name(line@, prefix@) is None,
        },
{
    let l = chars_of(line);
    let p = chars_of(prefix);
    match object_name_of(&l, &p) {
        Some(n) => Some(string_of(&n)),
        None => None,
    }
}


/// Whether the trimmed line `t` opens the definition of one of SQLite's or sqlx's own tables
/// (`_sqlx_migrations`, `sqlite_sequence`).
pub open spec fn opens_internal_table(t: Seq<char>) -> bool {
    starts_with(t, "CREATE TABLE"@) && (contains(t, "_sqlx_migrations"@) || contains(
        t,
        "sqlite_sequence"@,
    ))
}

/// Whether the trimmed line `t` defines one of SQLite's automatic indexes.
pub open spec fn is_auto_index(t: Seq<char>) -> bool {
    (starts_with(t, "CREATE INDEX"@) || starts_with(t, "CREATE UNIQUE INDEX"@)) && contains(
        t,
        "sqlite_autoindex_"@,
    )
}

/// The number of `'('` in `s` minus the number of `')'`.
pub open spec fn paren_delta(s: Seq<char>) -> int
    decreases s.len(),
{
    if s.len() == 0 {
        0
    } else {
        paren_delta(s.drop_last()) + if s.last() == '(' {
            1int
        } else if s.last() == ')' {
            -1int
        } else {
            0int
        }
    }
}

/// One line's effect on the scan: from whether a statement is being skipped and the open
/// parenthesis depth, the new skipping flag, the new depth, and whether the line is kept.
pub open spec fn skip_step(skipping: bool, depth: int, line: Seq<char>) -> (bool, int, bool) {
    let t = trim(line);
    if opens_internal_table(t) {
        let d = paren_delta(line);
        (!(d == 0 && ends_with(t, ");"@)), d, false)
    } else if is_auto_index(t) {
        (skipping, depth, false)
    } else if skipping {
        let d = depth + paren_delta(line);
        (!(d == 0 && ends_with(t, ");"@)), d, false)
    } else {
        (false, depth, true)
    }
}

/// The kept lines, each followed by `'\n'`, when scanning `ls` from the given state.
pub open spec fn kept_lines(skipping: bool, depth: int, ls: Seq<Seq<char>>) -> Seq<char>
    decreases ls.len(),
{
    if ls.len() == 0 {
        Seq::empty()
    } else {
        let st = skip_step(skipping, depth, ls[0]);
        (if st.2 {
            ls[0] + seq!['\n']
        } else {
            Seq::empty()
        }) + kept_lines(st.0, st.1, ls.drop_first())
    }
}

/// `schema` without the definitions of SQLite's and sqlx's internal tables and automatic
/// indexes: each remaining line followed by a newline.
pub open spec fn without_internal_objects(schema: Seq<char>) -> Seq<char> {
    kept_lines(false, 0, lines(schema))
}

/// Whether the parenthesis depth, counted on from `base` over the characters of `line`, stays
/// within `i32` after every character.
pub open spec fn depths_from_fit(base: int, line: Seq<char>) -> bool {
    forall|j: int|
        0 <= j <= line.len() ==> i32::MIN <= base + #[trigger] paren_delta(line.take(j)) <= i32::MAX
}

/// Whether, scanning `ls` from the given state, every parenthesis depth counted while a
/// statement is skipped stays within `i32`.
pub open spec fn depths_fit(skipping: bool, depth: int, ls: Seq<Seq<char>>) -> bool
    decreases ls.len(),
{
    if ls.len() == 0 {
        true
    } else {
        let t = trim(ls[0]);
        let here = if opens_internal_table(t) {
            depths_from_fit(0, ls[0])
        } else if is_auto_index(t) {
            true
        } else if skipping {
            depths_from_fit(depth, ls[0])
        } else {
            true
        };
        let st = skip_step(skipping, depth, ls[0]);
        here && depths_fit(st.0, st.1, ls.drop_first())
    }
}

/// The depth after counting the parentheses of `line` on from `base`, where every depth on
/// the way stays within `i32`; none where one does not.
fn prefix_depths(line: &Vec<char>, base: i64) -> (r: Option<i64>)
    requires
        i32::MIN <= base <= i32::MAX,
    ensures
        r is Some <==> depths_from_fit(base as int, line@),
        r matches Some(d) ==> d == base + paren_delta(line@) && i32::MIN <= d <= i32::MAX,
{
    let mut d: i64 = base;
    let mut k: usize = 0;
    assert(line@.take(0) =~= Seq::<char>::empty());
    while k < line.len()
        invariant
            k <= line@.len(),
            d == base + paren_delta(line@.take(k as int)),
            i32::MIN <= d <= i32::MAX,
            forall|j: int|
                0 <= j <= k ==> i32::MIN <= base + #[trigger] paren_delta(line@.take(j)) <= i32::MAX,
        decreases line@.len() - k,
    {
        assert(line@.take(k + 1).drop_last() =~= line@.take(k as int));
        if line[k] == '(' {
            d = d + 1;
        } else if line[k] == ')' {
            d = d - 1;
        }
        if d < i32::MIN as i64 || d > i32::MAX as i64 {
            assert(!(i32::MIN <= base + paren_delta(line@.take(k + 1)) <= i32::MAX));
            return None;
        }
        k = k + 1;
    }
    assert(line@.take(line@.len() as int) =~= line@);
    Some(d)
}

/// How a line is classified: whether its trimmed text opens an internal table, whether it
/// defines an automatic index, and whether it ends with `);`.
fn line_kind(line: &Vec<char>) -> (r: (bool, bool, bool))
    ensures
        r.0 == opens_internal_table(trim(line@)),
        r.1 == is_auto_index(trim(line@)),
        r.2 == ends_with(trim(line@), ");"@),
{
    let create_table = chars_of("CREATE TABLE");
    let sqlx_table = chars_of("_sqlx_migrations");
    let sequence_table = chars_of("sqlite_sequence");
    let create_index = chars_of("CREATE INDEX");
    let create_unique_index = chars_of("CREATE UNIQUE INDEX");
    let autoindex = chars_of("sqlite_autoindex_");
    let close = chars_of(");");
    let (t0, t1) = trim_bounds(line, 0, line.len());
    assert(line@.subrange(0, line@.len() as int) =~= line@);
    let t = sub_vec(line, t0, t1);
    let tl = t.len();
    assert(t@.subrange(0, tl as int) =~= t@);
    let internal = slice_starts_with(&t, 0, tl, &create_table) && (vec_contains(&t, &sqlx_table)
        || vec_contains(&t, &sequence_table));
    let auto = (slice_starts_with(&t, 0, tl, &create_index) || slice_starts_with(
        &t,
        0,
        tl,
        &create_unique_index,
    )) && vec_contains(&t, &autoindex);
    let closes = slice_ends_with(&t, 0, tl, &close);
    (internal, auto, closes)
}

/// Whether `p` occurs in `t`.
fn vec_contains(t: &Vec<char>, p: &Vec<char>) -> (r: bool)
    ensures
        r == contains(t@, p@),
{
    let f = slice_find_from(t, 0, t.len(), p);
    assert(t@.subrange(0, t@.len() as int) =~= t@);
    match f {
        Some(i) => true,
        None => {
            assert forall|j: int| !occurs_at(t@, p@, j) by {
                if j >= 0 {
                }
            }
            false
        },
    }
}

/// Removes from a `.schema` dump the definitions of sqlx's `_sqlx_migrations` table, of
/// `sqlite_sequence`, and of SQLite's automatic indexes; every other line is kept, followed by a
/// newline. The parenthesis depth counted while a definition is skipped stays within `i32`.
pub fn remove_sqlx_migrations_table(schema: &str) -> (r: String)
    requires
        depths_fit(false, 0, lines(schema@)),
    ensures
        r@ == without_internal_objects(schema@),
{
    let s = chars_of(schema);
    let mut out: Vec<char> = Vec::new();
    let mut skipping = false;
    let mut depth: i64 = 0;
    let mut i: usize = 0;
    while i < s.len()
        invariant
            s@ == schema@,
            i <= s@.len(),
            i32::MIN <= depth <= i32::MAX,
            depths_fit(skipping, depth as int, lines_from(s@, i as int)),
            out@ + kept_lines(skipping, depth as int, lines_from(s@, i as int)) == kept_lines(
                false,
                0,
                lines(s@),
            ),
        decreases s@.len() - i,
    {
        let (end, next) = next_line(&s, i);
        let line = sub_vec(&s, i, end);
        proof {
            crate::text::lemma_next_nl_bounds(s@, i as int);
            assert(lines_from(s@, next as int) == lines_from(s@, next_nl(s@, i as int) + 1));
            let rest = lines_from(s@, next as int);
            let ls = lines_from(s@, i as int);
            assert(ls == seq![line@] + rest);
            assert(ls[0] == line@);
            assert(ls.drop_first() =~= rest);
        }
        let (internal, auto, closes) = line_kind(&line);
        let ghost st = skip_step(skipping, depth as int, line@);
        let mut keep = false;
        if internal {
            let d = match prefix_depths(&line, 0) {
                Some(d) => d,
                None => 0,
            };
            depth = d;
            skipping = !(d == 0 && closes);
        } else if auto {
        } else if skipping {
            let d = match prefix_depths(&line, depth) {
                Some(d) => d,
                None => 0,
            };
            depth = d;
            skipping = !(depth == 0 && closes);
        } else {
            keep = true;
        }
        assert(st == (skipping, depth as int, keep));
        let ghost out_before = out@;
        if keep {
            append_chars(&mut out, &line);
            out.push('\n');
        }
        assert(out@ =~= out_before + (if keep {
            line@ + seq!['\n']
        } else {
            Seq::empty()
        }));
        i = next;
    }
    string_of(&out)
}

/// Whether removing the internal objects from `schema` keeps every parenthesis depth within
/// `i32` (what `remove_sqlx_migrations_table` needs).
pub fn schema_depths_fit(schema: &str) -> (r: bool)
    ensures
        r == depths_fit(false, 0, lines(schema@)),
{
    let s = chars_of(schema);
    let mut skipping = false;
    let mut depth: i64 = 0;
    let mut i: usize = 0;
    while i < s.len()
        invariant
            s@ == schema@,
            i <= s@.len(),
            i32::MIN <= depth <= i32::MAX,
            depths_fit(skipping, depth as int, lines_from(s@, i as int)) == depths_fit(
                false,
                0,
                lines(s@),
            ),
        decreases s@.len() - i,
    {
        let (end, next) = next_line(&s, i);
        let line = sub_vec(&s, i, end);
        proof {
            crate::text::lemma_next_nl_bounds(s@, i as int);
            assert(lines_from(s@, next as int) == lines_from(s@, next_nl(s@, i as int) + 1));
            let rest = lines_from(s@, next as int);
            let ls = lines_from(s@, i as int);
            assert(ls == seq![line@] + rest);
            assert(ls[0] == line@);
            assert(ls.drop_first() =~= rest);
        }
        let (internal, auto, closes) = line_kind(&line);
        let ghost st = skip_step(skipping, depth as int, line@);
        if internal {
            match prefix_depths(&line, 0) {
                Some(d) => {
                    depth = d;
                    skipping = !(d == 0 && closes);
                },
                None => {
                    return false;
                },
            }
        } else if auto {
        } else if skipping {
            match prefix_depths(&line, depth) {
                Some(d) => {
                    depth = d;
                    skipping = !(depth == 0 && closes);
                },
                None => {
                    return false;
                },
            }
        }
        assert(st == (skipping, depth as int, st.2));
        i = next;
    }
    true
}

/// The kinds of schema object that a `DROP` statement is generated for.
#[derive(Clone, Copy, PartialEq, Eq, Debug)]
pub enum ObjectKind {
    Index,
    View,
    Table,
}

/// The `DROP` statement for the object that the trimmed line `t` creates, if `t` creates an
/// object of `kind` with a name.
pub open spec fn drop_for(t: Seq<char>, kind: ObjectKind) -> Option<Seq<char>> {
    match kind {
        ObjectKind::Table => if starts_with(t, "CREATE TABLE"@) {
            match object_name(t, "CREATE TABLE"@) {
                Some(n) => Some("DROP TABLE IF EXISTS "@ + n + ";"@),
                None => None,
            }
        } else {
            None
        },
        ObjectKind::View => if starts_with(t, "CREATE VIEW"@) {
            match object_name(t, "CREATE VIEW"@) {
                Some(n) => Some("DROP VIEW IF EXISTS "@ + n + ";"@),
                None => None,
            }
        } else {
            None
        },
        ObjectKind::Index => if starts_with(t, "CREATE INDEX"@) || starts_with(
            t,
            "CREATE UNIQUE INDEX"@,
        ) {
            let prefix = if starts_with(t, "CREATE UNIQUE INDEX"@) {
                "CREATE UNIQUE INDEX"@
            } else {
                "CREATE INDEX"@
            };
            match object_name(t, prefix) {
                Some(n) => Some("DROP INDEX IF EXISTS "@ + n + ";"@),
                None => None,
            }
        } else {
            None
        },
    }
}

/// The `DROP` statements for the objects of `kind` that the lines `ls` create, in order.
pub open spec fn drops(ls: Seq<Seq<char>>, kind: ObjectKind) -> Seq<Seq<char>>
    decreases ls.len(),
{
    if ls.len() == 0 {
        Seq::empty()
    } else {
        drops(ls.drop_last(), kind) + match drop_for(trim(ls.last()), kind) {
            Some(d) => seq![d],
            None => Seq::empty(),
        }
    }
}

/// The statements that undo `schema`: one `DROP ... IF EXISTS` per created index, then per view,
/// then per table, each group in schema order, one per line.
pub open spec fn drop_statements(schema: Seq<char>) -> Seq<char> {
    let ls = lines(schema);
    join_with(drops(ls, ObjectKind::Index) + drops(ls, ObjectKind::View) + drops(ls, ObjectKind::Table), "\n"@)
}

/// `head + name + ";"`.
fn statement(head: &Vec<char>, name: &Vec<char>) -> (r: Vec<char>)
    ensures
        r@ == head@ + name@ + ";"@,
{
    let mut r: Vec<char> = Vec::new();
    append_chars(&mut r, head);
    append_chars(&mut r, name);
    let semi = chars_of(";");
    append_chars(&mut r, &semi);
    r
}

/// Executable `drop_for`.
fn drop_for_exec(t: &Vec<char>, kind: ObjectKind) -> (r: Option<Vec<char>>)
    ensures
        match r {
            Some(d) => drop_for(t@, kind) == Some(d@),
            None => drop_for(t@, kind) is None,
        },
{
    let tl = t.len();
    assert(t@.subrange(0, tl as int) =~= t@);
    match kind {
        ObjectKind::Table => {
            let p = chars_of("CREATE TABLE");
            if slice_starts_with(t, 0, tl, &p) {
                match object_name_of(t, &p) {
                    Some(n) => Some(statement(&chars_of("DROP TABLE IF EXISTS "), &n)),
                    None => None,
                }
            } else {
                None
            }
        },
        ObjectKind::View => {
            let p = chars_of("CREATE VIEW");
            if slice_starts_with(t, 0, tl, &p) {
                match object_name_of(t, &p) {
                    Some(n) => Some(statement(&chars_of("DROP VIEW IF EXISTS "), &n)),
                    None => None,
                }
            } else {
                None
            }
        },
        ObjectKind::Index => {
            let pi = chars_of("CREATE INDEX");
            let pu = chars_of("CREATE UNIQUE INDEX");
            let is_unique = slice_starts_with(t, 0, tl, &pu);
            if slice_starts_with(t, 0, tl, &pi) || is_unique {
                let p = if is_unique {
                    pu
                } else {
                    pi
                };
                match object_name_of(t, &p) {
                    Some(n) => Some(statement(&chars_of("DROP INDEX IF EXISTS "), &n)),
                    None => None,
                }
            } else {
                None
            }
        },
    }
}

/// `items` joined with newlines.
fn join_lines(items: &Vec<Vec<char>>) -> (r: Vec<char>)
    ensures
        r@ == join_with(views(items@), "\n"@),
{
    let ghost dv = views(items@);
    let mut r: Vec<char> = Vec::new();
    let nl = chars_of("\n");
    let mut k: usize = 0;
    while k < items.len()
        invariant
            k <= items@.len(),
            dv == views(items@),
            nl@ == "\n"@,
            r@ == join_with(dv.take(k as int), "\n"@),
        decreases items@.len() - k,
    {
        assert(dv.take(k + 1).drop_last() =~= dv.take(k as int));
        assert(dv.take(k + 1).last() == items@[k as int]@);
        if k > 0 {
            append_chars(&mut r, &nl);
        } else {
            assert(join_with(dv.take(0), "\n"@) =~= Seq::<char>::empty());
        }
        append_chars(&mut r, &items[k]);
        assert(k == 0 ==> r@ =~= dv.take(k + 1)[0]);
        k = k + 1;
    }
    assert(dv.take(items@.len() as int) =~= dv);
    r
}

/// The `DROP` statements that undo `schema` (see `drop_statements`).
pub fn generate_drop_statements(schema: &str) -> (r: Result<String, anyhow::Error>)
    ensures
        r matches Ok(d) && d@ == drop_statements(schema@),
{
    let s = chars_of(schema);
    let mut tables: Vec<Vec<char>> = Vec::new();
    let mut view_drops: Vec<Vec<char>> = Vec::new();
    let mut indexes: Vec<Vec<char>> = Vec::new();
    let ghost mut seen: Seq<Seq<char>> = Seq::empty();
    let mut i: usize = 0;
    while i < s.len()
        invariant
            s@ == schema@,
            i <= s@.len(),
            seen + lines_from(s@, i as int) == lines(s@),
            views(tables@) == drops(seen, ObjectKind::Table),
            views(view_drops@) == drops(seen, ObjectKind::View),
            views(indexes@) == drops(seen, ObjectKind::Index),
        decreases s@.len() - i,
    {
        let (end, next) = next_line(&s, i);
        let line = sub_vec(&s, i, end);
        let (t0, t1) = trim_bounds(&line, 0, line.len());
        assert(line@.subrange(0, line@.len() as int) =~= line@);
        let t = sub_vec(&line, t0, t1);
        proof {
            crate::text::lemma_next_nl_bounds(s@, i as int);
            assert(lines_from(s@, next as int) == lines_from(s@, next_nl(s@, i as int) + 1));
            assert(lines_from(s@, i as int) == seq![line@] + lines_from(s@, next as int));
            assert(seen + lines_from(s@, i as int) =~= seen.push(line@) + lines_from(s@, next as int));
            assert(seen.push(line@).drop_last() =~= seen);
        }
        let ghost seen2 = seen.push(line@);
        assert(t@ == trim(line@));
        assert(seen2.drop_last() =~= seen);
        assert(seen2.last() == line@);
        assert(forall|k: ObjectKind| #[trigger] drops(seen2, k) == drops(seen, k) + match drop_for(t@, k) {
            Some(d) => seq![d],
            None => Seq::empty(),
        });
        match drop_for_exec(&t, ObjectKind::Table) {
            Some(d) => {
                let ghost before = views(tables@);
                let ghost bv = tables@;
                let ghost dd = d;
                tables.push(d);
                assert(tables@ == bv.push(dd));
                assert(views(tables@) =~= before.push(dd@));
            },
            None => {},
        }
        assert(views(tables@) =~= drops(seen2, ObjectKind::Table));
        match drop_for_exec(&t, ObjectKind::View) {
            Some(d) => {
                let ghost before = views(view_drops@);
                let ghost bv = view_drops@;
                let ghost dd = d;
                view_drops.push(d);
                assert(view_drops@ == bv.push(dd));
                assert(views(view_drops@) =~= before.push(dd@));
            },
            None => {},
        }
        assert(views(view_drops@) =~= drops(seen2, ObjectKind::View));
        match drop_for_exec(&t, ObjectKind::Index) {
            Some(d) => {
                let ghost before = views(indexes@);
                let ghost bv = indexes@;
                let ghost dd = d;
                indexes.push(d);
                assert(indexes@ == bv.push(dd));
                assert(views(indexes@) =~= before.push(dd@));
            },
            None => {},
        }
        assert(views(indexes@) =~= drops(seen2, ObjectKind::Index));
        proof {
            seen = seen2;
        }
        i = next;
    }
    assert(seen =~= lines(s@));
    let ghost di = views(indexes@);
    let ghost dvw = views(view_drops@);
    let ghost dt = views(tables@);
    let mut all: Vec<Vec<char>> = Vec::new();
    all.append(&mut indexes);
    all.append(&mut view_drops);
    all.append(&mut tables);
    assert(views(all@) =~= di + dvw + dt);
    let joined = join_lines(&all);
    Ok(string_of(&joined))
}

/// `anyhow::Error`, the error type of `generate_drop_statements`.
#[verifier::external_type_specification]
#[verifier::external_body]
pub struct ExAnyhowError(anyhow::Error);

/// Whether no line of `ls` defines an internal table or an automatic index.
pub open spec fn free_of_internal_objects(ls: Seq<Seq<char>>) -> bool {
    forall|k: int|
        0 <= k < ls.len() ==> !opens_internal_table(trim(#[trigger] ls[k])) && !is_auto_index(
            trim(ls[k]),
        )
}

/// Scanning lines free of internal objects keeps each of them.
proof fn lemma_kept_lines_clean(depth: int, ls: Seq<Seq<char>>)
    requires
        free_of_internal_objects(ls),
    ensures
        kept_lines(false, depth, ls) == newline_terminated(ls),
    decreases ls.len(),
{
    if ls.len() > 0 {
        let t = ls.drop_first();
        assert(!opens_internal_table(trim(ls[0])) && !is_auto_index(trim(ls[0])));
        assert forall|k: int| 0 <= k < t.len() implies !opens_internal_table(trim(#[trigger] t[k]))
            && !is_auto_index(trim(t[k])) by {
            assert(t[k] == ls[k + 1]);
        }
        lemma_kept_lines_clean(depth, t);
    }
}

/// A schema that defines no internal table and no automatic index is kept whole: each of its
/// lines, followed by a newline.
pub proof fn lemma_clean_schema_kept(schema: Seq<char>)
    requires
        free_of_internal_objects(lines(schema)),
    ensures
        without_internal_objects(schema) == newline_terminated(lines(schema)),
{
    lemma_kept_lines_clean(0, lines(schema));
}

/// The lines that cleaning keeps, when scanning `ls` from the given state.
pub open spec fn kept_seq(skipping: bool, depth: int, ls: Seq<Seq<char>>) -> Seq<Seq<char>>
    decreases ls.len(),
{
    if ls.len() == 0 {
        Seq::empty()
    } else {
        let st = skip_step(skipping, depth, ls[0]);
        (if st.2 {
            seq![ls[0]]
        } else {
            Seq::empty()
        }) + kept_seq(st.0, st.1, ls.drop_first())
    }
}

/// The lines of `schema` that cleaning keeps.
pub open spec fn kept_line_list(schema: Seq<char>) -> Seq<Seq<char>> {
    kept_seq(false, 0, lines(schema))
}

/// The kept text is the kept lines, each followed by a newline; where the lines hold no
/// newline, no kept line holds one, opens an internal table or defines an automatic index.
proof fn lemma_kept_seq(skipping: bool, depth: int, ls: Seq<Seq<char>>)
    ensures
        kept_lines(skipping, depth, ls) == newline_terminated(kept_seq(skipping, depth, ls)),
        (forall|k: int, m: int| 0 <= k < ls.len() && 0 <= m < ls[k].len() ==> #[trigger] ls[k][m] != '\n')
            ==> forall|k: int| 0 <= k < kept_seq(skipping, depth, ls).len() ==> {
            let l = #[trigger] kept_seq(skipping, depth, ls)[k];
            &&& forall|m: int| 0 <= m < l.len() ==> l[m] != '\n'
            &&& !opens_internal_table(trim(l))
            &&& !is_auto_index(trim(l))
        },
    decreases ls.len(),
{
    if ls.len() > 0 {
        let st = skip_step(skipping, depth, ls[0]);
        let rest = ls.drop_first();
        lemma_kept_seq(st.0, st.1, rest);
        let kr = kept_seq(st.0, st.1, rest);
        let k = kept_seq(skipping, depth, ls);
        if st.2 {
            assert(k[0] == ls[0]);
            assert(k.drop_first() =~= kr);
        } else {
            assert(k =~= kr);
        }
        if forall|a: int, m: int| 0 <= a < ls.len() && 0 <= m < ls[a].len() ==> #[trigger] ls[a][m] != '\n' {
            assert forall|a: int, m: int| 0 <= a < rest.len() && 0 <= m < rest[a].len() implies #[trigger] rest[a][m]
                != '\n' by {
                assert(rest[a] == ls[a + 1]);
            }
            assert forall|j: int| 0 <= j < k.len() implies ({
                let l = #[trigger] k[j];
                &&& forall|m: int| 0 <= m < l.len() ==> l[m] != '\n'
                &&& !opens_internal_table(trim(l))
                &&& !is_auto_index(trim(l))
            }) by {
                if st.2 && j == 0 {
                    assert(k[0] == ls[0]);
                    assert forall|m: int| 0 <= m < ls[0].len() implies ls[0][m] != '\n' by {
                        assert(ls[0][m] != '\n');
                    }
                } else if st.2 {
                    assert(k[j] == kr[j - 1]);
                } else {
                    assert(k[j] == kr[j]);
                }
            }
        }
    }
}

/// Cleaning a schema twice gives what cleaning it once gives, where no line that cleaning keeps
/// ends with a carriage return.
pub proof fn lemma_cleaning_idempotent(schema: Seq<char>)
    requires
        forall|k: int|
            0 <= k < kept_line_list(schema).len() ==> !(#[trigger] kept_line_list(schema)[k].len() > 0
                && kept_line_list(schema)[k].last() == '\r'),
    ensures
        without_internal_objects(without_internal_objects(schema)) == without_internal_objects(schema),
{
    let ls = lines(schema);
    let kl = kept_line_list(schema);
    let w = without_internal_objects(schema);
    lemma_lines_hold_no_newline(schema, 0);
    lemma_kept_seq(false, 0, ls);
    assert(w == newline_terminated(kl));
    assert forall|k: int| 0 <= k < kl.len() implies plain_line(#[trigger] kl[k]) by {
        let l = kl[k];
        assert(!(l.len() > 0 && l.last() == '\r'));
    }
    lemma_lines_of_terminated(kl);
    assert(lines(w) == kl);
    assert(free_of_internal_objects(kl));
    lemma_clean_schema_kept(w);
}

} // verus!

