use vstd::prelude::*;

verus! {

/// How often a character occurs in a string.
pub open spec fn spec_count(s: Seq<char>, c: char) -> nat
    decreases s,
{
    if s.len() == 0 {
        0
    } else {
        spec_count(s.drop_first(), c) + (if s[0] == c {
            1nat
        } else {
            0nat
        })
    }
}

/// The position of the first occurrence of a character, if any.
pub open spec fn spec_find(s: Seq<char>, c: char) -> Option<int>
    decreases s,
{
    if s.len() == 0 {
        None
    } else if s[0] == c {
        Some(0)
    } else {
        match spec_find(s.drop_first(), c) {
            Some(j) => Some(j + 1),
            None => None,
        }
    }
}

/// The position of the last occurrence of two adjacent colons, if any.
pub open spec fn spec_rfind_colons(s: Seq<char>) -> Option<int>
    decreases s,
{
    if s.len() < 2 {
        None
    } else if s[s.len() - 2] == ':' && s[s.len() - 1] == ':' {
        Some(s.len() - 2)
    } else {
        spec_rfind_colons(s.drop_last())
    }
}

/// The string with everything up to and including its last path
/// separator removed.
pub open spec fn spec_strip_path(s: Seq<char>) -> Seq<char> {
    match spec_rfind_colons(s) {
        Some(p) => s.skip(p + 2),
        None => s,
    }
}

/// The string with all leading module-path segments stripped,
/// recursively inside a single generic argument:
/// `a::b::Vec<c::d::Foo>` becomes `Vec<Foo>`. A string with no single
/// generic argument keeps only what follows its last path separator.
pub open spec fn spec_remove_prefix(s: Seq<char>) -> Seq<char>
    decreases s.len(),
{
    if spec_count(s, '<') == 1 {
        match spec_find(s, '<') {
            Some(k) => if 0 <= k < s.len() {
                let non_generic = s.take(k);
                let generic_full = s.skip(k + 1);
                let generic = if generic_full.len() > 0 {
                    generic_full.drop_last()
                } else {
                    generic_full
                };
                spec_strip_path(non_generic) + "<"@ + spec_remove_prefix(generic) + ">"@
            } else {
                spec_strip_path(s)
            },
            None => spec_strip_path(s),
        }
    } else {
        spec_strip_path(s)
    }
}

/// A character occurs in a string exactly when it has a first
/// occurrence.
pub proof fn lemma_count_find(s: Seq<char>, c: char)
    ensures
        (spec_count(s, c) > 0) <==> (spec_find(s, c) is Some),
    decreases s,
{
    if s.len() > 0 {
        lemma_count_find(s.drop_first(), c);
    }
}

/// Counts a character and finds its first position in one pass.
pub fn count_and_find(s: &str, c: char) -> (r: (usize, Option<usize>))
    ensures
        r.0 == spec_count(s@, c),
        match r.1 {
            Some(k) => spec_find(s@, c) == Some(k as int) && k < s@.len() && s@[k as int] == c,
            None => spec_find(s@, c) is None,
        },
{
    let n: usize = s.unicode_len();
    let mut i: usize = 0;
    let mut cnt: usize = 0;
    let mut first: Option<usize> = None;
    proof {
        assert(s@.skip(0) =~= s@);
    }
    while i < n
        invariant
            i <= n,
            n == s@.len(),
            cnt <= i,
            cnt + spec_count(s@.skip(i as int), c) == spec_count(s@, c),
            match first {
                Some(k) => k < i && spec_find(s@, c) == Some(k as int) && s@[k as int] == c,
                None => spec_find(s@, c) == match spec_find(s@.skip(i as int), c) {
                    Some(j) => Some(j + i),
                    None => None,
                },
            },
        decreases n - i,
    {
        let ch = s.get_char(i);
        proof {
            assert(s@.skip(i as int)[0] == s@[i as int]);
            assert(s@.skip(i as int).drop_first() =~= s@.skip(i + 1 as int));
        }
        if ch == c {
            cnt = cnt + 1;
            if first.is_none() {
                first = Some(i);
            }
        }
        i = i + 1;
    }
    proof {
        assert(s@.skip(n as int) =~= Seq::<char>::empty());
    }
    (cnt, first)
}

/// Finds the last occurrence of two adjacent colons.
pub fn rfind_colons(s: &str) -> (r: Option<usize>)
    ensures
        match r {
            Some(p) => spec_rfind_colons(s@) == Some(p as int) && p + 2 <= s@.len(),
            None => spec_rfind_colons(s@) is None,
        },
{
    let n: usize = s.unicode_len();
    let mut i: usize = n;
    proof {
        assert(s@.take(n as int) =~= s@);
    }
    while i >= 2
        invariant
            i <= n,
            n == s@.len(),
            spec_rfind_colons(s@) == spec_rfind_colons(s@.take(i as int)),
        decreases i,
    {
        proof {
            assert(s@.take(i as int).len() == i);
            assert(s@.take(i as int)[i - 2 as int] == s@[i - 2 as int]);
            assert(s@.take(i as int)[i - 1 as int] == s@[i - 1 as int]);
            assert(s@.take(i as int).drop_last() =~= s@.take(i - 1 as int));
        }
        if s.get_char(i - 2) == ':' && s.get_char(i - 1) == ':' {
            return Some(i - 2);
        }
        i = i - 1;
    }
    None
}

/// The slice following the last path separator; the whole string if
/// there is none.
pub fn strip_path<'a>(s: &'a str) -> (r: &'a str)
    ensures
        r@ == spec_strip_path(s@),
{
    let n: usize = s.unicode_len();
    match rfind_colons(s) {
        Some(p) => {
            let r = s.substring_char(p + 2, n);
            proof {
                assert(r@ =~= spec_strip_path(s@));
            }
            r
        },
        None => s,
    }
}

/// Strips leading module-path segments from a type or symbol name,
/// recursively inside a single generic argument:
/// `a::b::Vec<c::d::Foo>` becomes `Vec<Foo>`.
pub fn remove_prefix(s: &str) -> (r: String)
    ensures
        r@ == spec_remove_prefix(s@),
    decreases s@.len(),
{
    let n: usize = s.unicode_len();
    let (cnt, first) = count_and_find(s, '<');
    if cnt == 1 {
        match first {
            Some(k) => {
                let non_generic = s.substring_char(0, k);
                let generic_full = s.substring_char(k + 1, n);
                let glen: usize = generic_full.unicode_len();
                let generic = if glen > 0 {
                    generic_full.substring_char(0, glen - 1)
                } else {
                    generic_full
                };
                proof {
                    assert(non_generic@ =~= s@.take(k as int));
                    assert(generic_full@ =~= s@.skip(k + 1 as int));
                    if glen > 0 {
                        assert(generic@ =~= s@.skip(k + 1 as int).drop_last());
                    }
                    assert(generic@.len() < s@.len());
                }
                let mut out = String::from_str(strip_path(non_generic));
                out.append("<");
                let inner = remove_prefix(generic);
                out.append(inner.as_str());
                out.append(">");
                out
            },
            None => {
                proof {
                    lemma_count_find(s@, '<');
                    assert(false);
                }
                String::from_str(strip_path(s))
            },
        }
    } else {
        String::from_str(strip_path(s))
    }
}

/// A character is absent exactly when its count is zero.
proof fn lemma_count_zero_iff(s: Seq<char>, c: char)
    ensures
        (spec_count(s, c) == 0) <==> (forall|i: int| 0 <= i < s.len() ==> s[i] != c),
    decreases s,
{
    if s.len() > 0 {
        lemma_count_zero_iff(s.drop_first(), c);
        if spec_count(s, c) == 0 {
            assert forall|i: int| 0 <= i < s.len() implies s[i] != c by {
                if i > 0 {
                    assert(s.drop_first()[i - 1] == s[i]);
                    assert(s.drop_first()[i - 1] != c);
                }
            }
        }
        if forall|i: int| 0 <= i < s.len() ==> s[i] != c {
            assert forall|i: int| 0 <= i < s.drop_first().len() implies s.drop_first()[i] != c by {
                assert(s.drop_first()[i] == s[i + 1]);
                assert(s[i + 1] != c);
            }
        }
    }
}

/// Counting distributes over concatenation.
proof fn lemma_count_concat(a: Seq<char>, b: Seq<char>, c: char)
    ensures
        spec_count(a + b, c) == spec_count(a, c) + spec_count(b, c),
    decreases a,
{
    if a.len() == 0 {
        assert(a + b =~= b);
    } else {
        lemma_count_concat(a.drop_first(), b, c);
        assert((a + b).drop_first() =~= a.drop_first() + b);
        assert((a + b)[0] == a[0]);
    }
}

/// A found first occurrence is in range, carries the character, and
/// nothing earlier does.
proof fn lemma_find_props(s: Seq<char>, c: char, k: int)
    requires
        spec_find(s, c) == Some(k),
    ensures
        0 <= k < s.len(),
        s[k] == c,
        forall|i: int| 0 <= i < k ==> s[i] != c,
    decreases s,
{
    if s.len() > 0 && s[0] != c {
        lemma_find_props(s.drop_first(), c, k - 1);
        assert(s[k] == s.drop_first()[k - 1]);
        assert forall|i: int| 0 <= i < k implies s[i] != c by {
            if i > 0 {
                assert(s.drop_first()[i - 1] == s[i]);
                assert(s.drop_first()[i - 1] != c);
            }
        }
    }
}

/// A position carrying the character, with nothing earlier carrying
/// it, is the first occurrence.
proof fn lemma_find_at(s: Seq<char>, c: char, k: int)
    requires
        0 <= k < s.len(),
        s[k] == c,
        forall|i: int| 0 <= i < k ==> s[i] != c,
    ensures
        spec_find(s, c) == Some(k),
    decreases s,
{
    if k > 0 {
        assert(forall|i: int|
            0 <= i < k - 1 ==> #[trigger] s.drop_first()[i] == s[i + 1]);
        lemma_find_at(s.drop_first(), c, k - 1);
    }
}

/// No adjacent colon pair anywhere.
pub open spec fn spec_no_colon_pair(s: Seq<char>) -> bool {
    forall|i: int| 0 <= i < s.len() - 1 ==> !((#[trigger] s[i]) == ':' && s[i + 1] == ':')
}

/// The colon-pair search fails exactly when no pair exists.
proof fn lemma_rfind_none_iff(s: Seq<char>)
    ensures
        (spec_rfind_colons(s) is None) <==> spec_no_colon_pair(s),
    decreases s,
{
    if s.len() < 2 {
    } else {
        lemma_rfind_none_iff(s.drop_last());
        if spec_rfind_colons(s) is None {
            assert(!(s[s.len() - 2] == ':' && s[s.len() - 1] == ':'));
            assert forall|i: int| 0 <= i < s.len() - 1 implies !((#[trigger] s[i]) == ':' && s[i
                + 1] == ':') by {
                if i < s.len() - 2 {
                    assert(s.drop_last()[i] == s[i]);
                    assert(s.drop_last()[i + 1] == s[i + 1]);
                    assert(!((s.drop_last()[i]) == ':' && s.drop_last()[i + 1] == ':'));
                }
            }
        }
        if spec_no_colon_pair(s) {
            assert forall|i: int|
                0 <= i < s.drop_last().len() - 1 implies !((#[trigger] s.drop_last()[i]) == ':'
                && s.drop_last()[i + 1] == ':') by {
                assert(s.drop_last()[i] == s[i]);
                assert(s.drop_last()[i + 1] == s[i + 1]);
                assert(!(s[i] == ':' && s[i + 1] == ':'));
            }
            assert(spec_no_colon_pair(s.drop_last()));
            assert(!(s[s.len() - 2] == ':' && s[s.len() - 1] == ':'));
        }
    }
}

/// A found colon pair is in range, is a pair, and is the last one.
proof fn lemma_rfind_props(s: Seq<char>, p: int)
    requires
        spec_rfind_colons(s) == Some(p),
    ensures
        0 <= p <= s.len() - 2,
        s[p] == ':' && s[p + 1] == ':',
        forall|i: int| p < i < s.len() - 1 ==> !((#[trigger] s[i]) == ':' && s[i + 1] == ':'),
    decreases s,
{
    if s.len() >= 2 && !(s[s.len() - 2] == ':' && s[s.len() - 1] == ':') {
        lemma_rfind_props(s.drop_last(), p);
        assert forall|i: int| p < i < s.len() - 1 implies !((#[trigger] s[i]) == ':' && s[i + 1]
            == ':') by {
            if i < s.len() - 2 {
                assert(s.drop_last()[i] == s[i]);
                assert(s.drop_last()[i + 1] == s[i + 1]);
                assert(!((s.drop_last()[i]) == ':' && s.drop_last()[i + 1] == ':'));
            }
        }
        assert(s[p] == s.drop_last()[p] && s[p + 1] == s.drop_last()[p + 1]);
    }
}

/// What follows the last path separator holds no colon pair, so
/// stripping the path is idempotent.
proof fn lemma_strip_path_no_pair(s: Seq<char>)
    ensures
        spec_rfind_colons(s) is Some ==> spec_no_colon_pair(spec_strip_path(s)),
        spec_rfind_colons(s) is None ==> spec_strip_path(s) == s,
        spec_strip_path(spec_strip_path(s)) == spec_strip_path(s),
{
    match spec_rfind_colons(s) {
        Some(p) => {
            lemma_rfind_props(s, p);
            let r = s.skip(p + 2);
            assert forall|i: int| 0 <= i < r.len() - 1 implies !((#[trigger] r[i]) == ':' && r[i
                + 1] == ':') by {
                assert(r[i] == s[p + 2 + i]);
                assert(r[i + 1] == s[p + 2 + i + 1]);
                assert(!(s[p + 2 + i] == ':' && s[p + 2 + i + 1] == ':'));
            }
            assert(spec_no_colon_pair(r));
            lemma_rfind_none_iff(r);
        },
        None => {},
    }
}

/// Stripping the path keeps only trailing characters.
proof fn lemma_strip_path_chars(s: Seq<char>)
    ensures
        spec_strip_path(s).len() <= s.len(),
        forall|i: int|
            0 <= i < spec_strip_path(s).len() ==> #[trigger] spec_strip_path(s)[i] == s[i + (
            s.len() - spec_strip_path(s).len())],
{
    match spec_rfind_colons(s) {
        Some(p) => {
            lemma_rfind_props(s, p);
        },
        None => {},
    }
}

/// Stripping module paths is idempotent: applying it to its own result
/// changes nothing. This holds whenever the name has at most one
/// generic bracket, or the trailing path segment does not by itself
/// look like a single generic name.
#[verifier::rlimit(100)]
pub proof fn lemma_remove_prefix_idempotent(s: Seq<char>)
    requires
        spec_count(s, '<') == 1 || spec_count(spec_strip_path(s), '<') != 1,
    ensures
        spec_remove_prefix(spec_remove_prefix(s)) == spec_remove_prefix(s),
{
    reveal_strlit("<");
    reveal_strlit(">");
    assert("<"@ =~= seq!['<']);
    assert(">"@ =~= seq!['>']);
    if spec_count(s, '<') == 1 {
        lemma_count_find(s, '<');
        let k = choose|k: int| spec_find(s, '<') == Some(k);
        lemma_find_props(s, '<', k);
        let non_generic = s.take(k);
        let generic_full = s.skip(k + 1);
        let generic: Seq<char> = if generic_full.len() > 0 {
            generic_full.drop_last()
        } else {
            generic_full
        };
        // the pieces around the bracket hold no bracket of their own
        assert(s =~= non_generic + seq![s[k]] + generic_full);
        lemma_count_concat(non_generic + seq![s[k]], generic_full, '<');
        lemma_count_concat(non_generic, seq![s[k]], '<');
        lemma_count_zero_iff(non_generic, '<');
        assert(spec_count(seq![s[k]], '<') == 1) by {
            assert(seq![s[k]].drop_first() =~= Seq::<char>::empty());
        }
        assert(spec_count(generic_full, '<') == 0);
        lemma_count_zero_iff(generic_full, '<');
        assert(forall|i: int|
            0 <= i < generic.len() ==> #[trigger] generic[i] == generic_full[i]);
        lemma_count_zero_iff(generic, '<');
        assert(spec_count(generic, '<') == 0);
        // the stripped head keeps no bracket and no colon pair
        let a = spec_strip_path(non_generic);
        lemma_strip_path_chars(non_generic);
        lemma_strip_path_no_pair(non_generic);
        lemma_count_zero_iff(a, '<');
        assert(spec_no_colon_pair(a)) by {
            lemma_rfind_none_iff(non_generic);
            if spec_rfind_colons(non_generic) is None {
                assert(a == non_generic);
            }
        }
        // the inner result is the stripped generic: no bracket, no pair
        let b = spec_remove_prefix(generic);
        assert(b == spec_strip_path(generic));
        lemma_strip_path_chars(generic);
        lemma_strip_path_no_pair(generic);
        lemma_count_zero_iff(b, '<');
        assert(spec_no_colon_pair(b)) by {
            lemma_rfind_none_iff(generic);
            if spec_rfind_colons(generic) is None {
                assert(b == generic);
            }
        }
        let r = a + "<"@ + b + ">"@;
        assert(spec_remove_prefix(s) == r);
        // the result carries exactly one bracket, at the head's end
        lemma_count_concat(a + "<"@ + b, ">"@, '<');
        lemma_count_concat(a + "<"@, b, '<');
        lemma_count_concat(a, "<"@, '<');
        assert(spec_count("<"@, '<') == 1) by {
            reveal_strlit("<");
            assert("<"@.drop_first() =~= Seq::<char>::empty());
        }
        assert(spec_count(">"@, '<') == 0) by {
            reveal_strlit(">");
            assert(">"@.len() == 1 && ">"@[0] == '>');
            assert(">"@.drop_first() =~= Seq::<char>::empty());
            assert(spec_count(Seq::<char>::empty(), '<') == 0);
            assert(spec_count(">"@, '<') == spec_count(">"@.drop_first(), '<'));
        }
        assert(spec_count(r, '<') == 1);
        assert(r[a.len() as int] == '<');
        assert(forall|i: int| 0 <= i < a.len() ==> #[trigger] r[i] == a[i]);
        lemma_find_at(r, '<', a.len() as int);
        // reading the result back splits it at the same place
        let r_non_generic = r.take(a.len() as int);
        let r_generic_full = r.skip(a.len() as int + 1);
        assert(r_non_generic =~= a);
        assert(r_generic_full =~= b + ">"@);
        assert(r_generic_full.len() > 0);
        assert(r_generic_full.drop_last() =~= b);
        lemma_rfind_none_iff(a);
        assert(spec_strip_path(a) == a);
        assert(spec_count(b, '<') != 1);
        lemma_rfind_none_iff(b);
        assert(spec_remove_prefix(b) == spec_strip_path(b));
        assert(spec_strip_path(b) == b);
        assert(spec_remove_prefix(r) =~= r);
    } else {
        let r = spec_strip_path(s);
        assert(spec_remove_prefix(s) == r);
        lemma_strip_path_no_pair(s);
        match spec_rfind_colons(s) {
            Some(p) => {
                lemma_rfind_none_iff(r);
                assert(spec_strip_path(r) == r);
                assert(spec_remove_prefix(r) == r);
            },
            None => {
                assert(r == s);
                assert(spec_remove_prefix(r) == r);
            },
        }
    }
}

/// Removes every occurrence of the function-name prefix `fn_`.
pub open spec fn spec_remove_fn_prefix(s: Seq<char>) -> Seq<char>
    decreases s.len(),
{
    if s.len() < 3 {
        s
    } else if s.take(3) == "fn_"@ {
        spec_remove_fn_prefix(s.skip(3))
    } else {
        seq![s[0]] + spec_remove_fn_prefix(s.drop_first())
    }
}

/// Removes every occurrence of the function-name prefix `fn_`.
pub fn remove_fn_prefix(s: &str) -> (r: String)
    ensures
        r@ == spec_remove_fn_prefix(s@),
    decreases s@.len(),
{
    proof {
        reveal_strlit("fn_");
    }
    let n: usize = s.unicode_len();
    if n < 3 {
        String::from_str(s)
    } else if s.get_char(0) == 'f' && s.get_char(1) == 'n' && s.get_char(2) == '_' {
        proof {
            assert(s@.take(3) =~= "fn_"@);
        }
        let rest = s.substring_char(3, n);
        proof {
            assert(rest@ =~= s@.skip(3));
        }
        remove_fn_prefix(rest)
    } else {
        proof {
            assert(s@.take(3) != "fn_"@) by {
                if s@.take(3) == "fn_"@ {
                    assert(s@.take(3)[0] == s@[0]);
                    assert(s@.take(3)[1] == s@[1]);
                    assert(s@.take(3)[2] == s@[2]);
                }
            }
        }
        let head = s.substring_char(0, 1);
        let rest = s.substring_char(1, n);
        proof {
            assert(head@ =~= seq![s@[0]]);
            assert(rest@ =~= s@.drop_first());
        }
        let mut out = String::from_str(head);
        let tail = remove_fn_prefix(rest);
        out.append(tail.as_str());
        out
    }
}

} // verus!
