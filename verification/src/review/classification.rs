//! Semantic classification of each changed symbol.

use vstd::prelude::*;

use crate::model::{find_symbol, ProjectIndex, Symbol, SymbolKind};
use crate::text::chars_of;

use super::diff::ReviewDiff;
use super::{SymbolChange, SymbolDiffEntry};

verus! {

/// The semantic nature of one symbol's change.
#[derive(Debug)]
pub struct SymbolClassification {
    pub file: String,
    pub symbol: String,
    pub kind: SymbolKind,
    pub classification: String,
    pub sub_classification: String,
}

/// Non-overlapping occurrences of `p` in `s`, found from left to right.
pub open spec fn count_matches(s: Seq<char>, p: Seq<char>) -> nat
    decreases s.len(),
{
    if p.len() == 0 || s.len() < p.len() {
        0
    } else if s.take(p.len() as int) == p {
        1 + count_matches(s.skip(p.len() as int), p)
    } else {
        count_matches(s.drop_first(), p)
    }
}

pub proof fn lemma_count_matches_bound(s: Seq<char>, p: Seq<char>)
    ensures
        count_matches(s, p) <= s.len(),
    decreases s.len(),
{
    if p.len() > 0 && s.len() >= p.len() {
        if s.take(p.len() as int) == p {
            lemma_count_matches_bound(s.skip(p.len() as int), p);
        } else {
            lemma_count_matches_bound(s.drop_first(), p);
        }
    }
}

/// Language-agnostic keywords and tokens that indicate error handling.
pub open spec fn error_patterns() -> Seq<Seq<char>> {
    seq![
        "Result<"@, "Err("@, "unwrap("@, "unwrap_or"@, "expect("@,
        "?"@,
        "try {"@, "catch"@, "throw "@, "throws "@,
        "error"@, "Error"@,
        "panic!("@, "bail!("@,
        "raise "@, "except "@,
        "if err != nil"@,
    ]
}

/// Total occurrences of the first `n` error-handling patterns.
pub open spec fn pattern_total(s: Seq<char>, n: int) -> nat
    decreases n,
{
    if n <= 0 {
        0
    } else {
        pattern_total(s, n - 1) + count_matches(s, error_patterns()[n - 1])
    }
}

/// Total occurrences of all error-handling patterns.
pub open spec fn error_count_spec(s: Seq<char>) -> nat {
    pattern_total(s, 17)
}

/// Occurrences of `p` in `s` (`p` non-empty).
fn count_occurrences(s: &Vec<char>, p: &Vec<char>) -> (r: usize)
    requires
        p@.len() > 0,
    ensures
        r == count_matches(s@, p@),
{
    let n = s.len();
    let m = p.len();
    let mut count: usize = 0;
    let mut i: usize = 0;
    proof {
        lemma_count_matches_bound(s@, p@);
    }
    assert(s@.skip(0) =~= s@);
    while i < n && m <= n - i
        invariant
            0 <= i <= n == s@.len(),
            m == p@.len() > 0,
            count + count_matches(s@.skip(i as int), p@) == count_matches(s@, p@),
            count_matches(s@, p@) <= n,
        decreases n - i,
    {
        let mut j: usize = 0;
        while j < m && s[i + j] == p[j]
            invariant
                0 <= j <= m,
                i + m <= n == s@.len(),
                m == p@.len(),
                forall|k: int| 0 <= k < j ==> s@[i + k] == p@[k],
            decreases m - j,
        {
            j += 1;
        }
        let ghost rest = s@.skip(i as int);
        if j == m {
            assert(rest.take(m as int) =~= p@);
            assert(rest.skip(m as int) =~= s@.skip(i + m));
            proof {
                lemma_count_matches_bound(s@.skip(i + m), p@);
            }
            count += 1;
            i += m;
        } else {
            assert(rest.take(m as int)[j as int] == s@[i + j]);
            assert(rest.take(m as int) != p@);
            assert(rest.drop_first() =~= s@.skip(i + 1));
            i += 1;
        }
    }
    assert(count_matches(s@.skip(i as int), p@) == 0);
    count
}

/// Count occurrences of error-handling patterns in source text.
pub fn error_pattern_count(source: &str) -> (r: usize)
    requires
        17 * source@.len() <= usize::MAX,
    ensures
        r == error_count_spec(source@),
{
    let s = chars_of(source);
    let patterns: [&str; 17] = [
        "Result<", "Err(", "unwrap(", "unwrap_or", "expect(",
        "?",
        "try {", "catch", "throw ", "throws ",
        "error", "Error",
        "panic!(", "bail!(",
        "raise ", "except ",
        "if err != nil",
    ];
    assert(patterns@.map_values(|p: &str| p@) =~= error_patterns()) by {
        reveal_strlit("Result<");
        reveal_strlit("Err(");
        reveal_strlit("unwrap(");
        reveal_strlit("unwrap_or");
        reveal_strlit("expect(");
        reveal_strlit("?");
        reveal_strlit("try {");
        reveal_strlit("catch");
        reveal_strlit("throw ");
        reveal_strlit("throws ");
        reveal_strlit("error");
        reveal_strlit("Error");
        reveal_strlit("panic!(");
        reveal_strlit("bail!(");
        reveal_strlit("raise ");
        reveal_strlit("except ");
        reveal_strlit("if err != nil");
    }
    let mut total: usize = 0;
    let mut k: usize = 0;
    while k < 17
        invariant
            0 <= k <= 17,
            s@ == source@,
            17 * source@.len() <= usize::MAX,
            patterns@.map_values(|p: &str| p@) == error_patterns(),
            total == pattern_total(source@, k as int),
            total <= k * source@.len(),
        decreases 17 - k,
    {
        let p = chars_of(patterns[k]);
        assert(p@ == error_patterns()[k as int]);
        proof {
            reveal_strlit("Result<");
            reveal_strlit("Err(");
            reveal_strlit("unwrap(");
            reveal_strlit("unwrap_or");
            reveal_strlit("expect(");
            reveal_strlit("?");
            reveal_strlit("try {");
            reveal_strlit("catch");
            reveal_strlit("throw ");
            reveal_strlit("throws ");
            reveal_strlit("error");
            reveal_strlit("Error");
            reveal_strlit("panic!(");
            reveal_strlit("bail!(");
            reveal_strlit("raise ");
            reveal_strlit("except ");
            reveal_strlit("if err != nil");
            lemma_count_matches_bound(source@, p@);
            assert((k + 1) * source@.len() == k * source@.len() + source@.len()) by (nonlinear_arith);
            assert((k + 1) * source@.len() <= 17 * source@.len()) by (nonlinear_arith)
                requires k + 1 <= 17;
        }
        let c = count_occurrences(&s, &p);
        total = total + c;
        k += 1;
    }
    total
}

// ---------------------------------------------------------------------------
// Classification
// ---------------------------------------------------------------------------

/// Types whose body is their definition.
pub open spec fn is_type_symbol(k: SymbolKind) -> bool {
    k is Struct || k is Enum || k is Type || k is Interface
}

/// Heuristic: the head version of the symbol holds more error-handling
/// patterns than the base version (a symbol absent from the base counts
/// zero there; one absent from the head never qualifies).
pub open spec fn error_handling_change_spec(base: ProjectIndex, head: ProjectIndex, name: Seq<char>, file: Seq<char>) -> bool {
    match (find_symbol(base.symbols@, file, name), find_symbol(head.symbols@, file, name)) {
        (Some(b), Some(h)) => error_count_spec(h.body@) > error_count_spec(b.body@),
        (None, Some(h)) => error_count_spec(h.body@) > 0,
        _ => false,
    }
}

/// The (classification, sub-classification) of one changed symbol.
pub open spec fn classify_spec(e: SymbolDiffEntry, base: ProjectIndex, head: ProjectIndex) -> (Seq<char>, Seq<char>) {
    if e.kind is Import {
        ("import_change"@, Seq::<char>::empty())
    } else {
        match e.change {
            SymbolChange::Added => ("structural"@, "added"@),
            SymbolChange::Deleted => ("structural"@, "deleted"@),
            SymbolChange::Moved { .. } => ("structural"@, "moved"@),
            SymbolChange::Modified { signature_changed, body_changed, .. } => {
                if signature_changed {
                    if is_type_symbol(e.kind) {
                        ("type_change"@, "signature_changed"@)
                    } else {
                        ("api_surface_change"@, "signature_changed"@)
                    }
                } else if body_changed {
                    if is_type_symbol(e.kind) {
                        ("type_change"@, "body_change"@)
                    } else if error_handling_change_spec(base, head, e.name@, e.file@) {
                        ("error_handling_change"@, "error_handling_change"@)
                    } else {
                        ("behavioral"@, "body_logic_change"@)
                    }
                } else {
                    ("behavioral"@, Seq::<char>::empty())
                }
            },
        }
    }
}

/// Every symbol body of the snapshot is short enough to count patterns in.
pub open spec fn bodies_countable(p: ProjectIndex) -> bool {
    forall|k: int| 0 <= k < p.symbols@.len() ==> 17 * (#[trigger] p.symbols@[k]).body@.len() <= usize::MAX
}

proof fn lemma_find_symbol_in(syms: Seq<Symbol>, file: Seq<char>, name: Seq<char>)
    ensures
        find_symbol(syms, file, name) matches Some(s) ==> exists|k: int| 0 <= k < syms.len() && syms[k] == s,
    decreases syms.len(),
{
    if syms.len() > 0 && !(syms[0].file@ == file && syms[0].name@ == name) {
        lemma_find_symbol_in(syms.drop_first(), file, name);
        if let Some(s) = find_symbol(syms, file, name) {
            let k = choose|k: int| 0 <= k < syms.drop_first().len() && syms.drop_first()[k] == s;
            assert(syms[k + 1] == s);
        }
    } else if syms.len() > 0 {
        assert(syms[0] == syms[0]);
    }
}

fn has_error_handling_change(base_project: &ProjectIndex, head_project: &ProjectIndex, symbol: &str, file: &str) -> (b: bool)
    requires
        bodies_countable(*base_project),
        bodies_countable(*head_project),
    ensures
        b == error_handling_change_spec(*base_project, *head_project, symbol@, file@),
{
    proof {
        lemma_find_symbol_in(base_project.symbols@, file@, symbol@);
        lemma_find_symbol_in(head_project.symbols@, file@, symbol@);
    }
    let base_sym = base_project.get(file, symbol);
    let head_sym = head_project.get(file, symbol);
    let (base_count, head_count) = match (base_sym, head_sym) {
        (Some(b), Some(h)) => (error_pattern_count(b.body.as_str()), error_pattern_count(h.body.as_str())),
        (None, Some(h)) => (0, error_pattern_count(h.body.as_str())),
        _ => return false,
    };
    // Consider it an error-handling change if error patterns increased.
    head_count > base_count
}

fn classify_symbol(e: &SymbolDiffEntry, base_project: &ProjectIndex, head_project: &ProjectIndex) -> (r: (String, String))
    requires
        bodies_countable(*base_project),
        bodies_countable(*head_project),
    ensures
        (r.0@, r.1@) == classify_spec(*e, *base_project, *head_project),
{
    // Imports get their own category regardless of change type.
    if e.kind == SymbolKind::Import {
        return (String::from_str("import_change"), String::new());
    }
    match &e.change {
        SymbolChange::Added => (String::from_str("structural"), String::from_str("added")),
        SymbolChange::Deleted => (String::from_str("structural"), String::from_str("deleted")),
        SymbolChange::Moved { .. } => (String::from_str("structural"), String::from_str("moved")),
        SymbolChange::Modified { signature_changed, body_changed, .. } => {
            let is_type_symbol = match e.kind {
                SymbolKind::Struct | SymbolKind::Enum | SymbolKind::Type | SymbolKind::Interface => true,
                _ => false,
            };
            if *signature_changed {
                if is_type_symbol {
                    (String::from_str("type_change"), String::from_str("signature_changed"))
                } else {
                    (String::from_str("api_surface_change"), String::from_str("signature_changed"))
                }
            } else if *body_changed {
                if is_type_symbol {
                    (String::from_str("type_change"), String::from_str("body_change"))
                } else if has_error_handling_change(base_project, head_project, e.name.as_str(), e.file.as_str()) {
                    (String::from_str("error_handling_change"), String::from_str("error_handling_change"))
                } else {
                    (String::from_str("behavioral"), String::from_str("body_logic_change"))
                }
            } else {
                // signature_changed=false, body_changed=false: no visible change (edge case).
                (String::from_str("behavioral"), String::new())
            }
        },
    }
}

/// What a classification holds for a changed symbol.
pub open spec fn classification_is(c: SymbolClassification, e: SymbolDiffEntry, base: ProjectIndex, head: ProjectIndex) -> bool {
    &&& c.file == e.file
    &&& c.symbol == e.name
    &&& c.kind == e.kind
    &&& (c.classification@, c.sub_classification@) == classify_spec(e, base, head)
}

/// Classify every changed symbol in the review diff by the semantic nature
/// of its change.
pub fn compute_change_classification(review_diff: &ReviewDiff, base_project: &ProjectIndex, head_project: &ProjectIndex) -> (r: Vec<SymbolClassification>)
    requires
        bodies_countable(*base_project),
        bodies_countable(*head_project),
    ensures
        r@.len() == review_diff.symbol_diffs@.len(),
        forall|k: int|
            0 <= k < r@.len() ==> classification_is(#[trigger] r@[k], review_diff.symbol_diffs@[k], *base_project, *head_project),
{
    let mut classifications: Vec<SymbolClassification> = Vec::new();
    let mut i: usize = 0;
    while i < review_diff.symbol_diffs.len()
        invariant
            0 <= i <= review_diff.symbol_diffs@.len(),
            bodies_countable(*base_project),
            bodies_countable(*head_project),
            classifications@.len() == i,
            forall|k: int|
                0 <= k < i ==> classification_is(#[trigger] classifications@[k], review_diff.symbol_diffs@[k], *base_project, *head_project),
        decreases review_diff.symbol_diffs@.len() - i,
    {
        let sym = &review_diff.symbol_diffs[i];
        let (classification, sub_classification) = classify_symbol(sym, base_project, head_project);
        classifications.push(SymbolClassification {
            file: sym.file.clone(),
            symbol: sym.name.clone(),
            kind: sym.kind,
            classification,
            sub_classification,
        });
        i += 1;
    }
    classifications
}

/// A modified struct, enum, type alias or interface is a type change:
/// `signature_changed` when its signature changed, `body_change` when only
/// its body did. A modified symbol of any other kind (imports aside) whose
/// signature changed is an API surface change. Imports are import
/// changes; added, deleted and moved symbols are structural. Any other
/// symbol whose body alone changed is an error-handling or behavioral
/// change, and a modification with neither change is behavioral.
pub proof fn law_type_symbols_are_type_changes(c: SymbolClassification, e: SymbolDiffEntry, base: ProjectIndex, head: ProjectIndex)
    requires
        classification_is(c, e, base, head),
    ensures
        (e.kind is Struct || e.kind is Enum || e.kind is Type || e.kind is Interface) ==> match e.change {
            SymbolChange::Modified { signature_changed: true, .. } => c.classification@ == "type_change"@
                && c.sub_classification@ == "signature_changed"@,
            SymbolChange::Modified { signature_changed: false, body_changed: true, .. } => c.classification@
                == "type_change"@ && c.sub_classification@ == "body_change"@,
            _ => true,
        },
        !(e.kind is Struct || e.kind is Enum || e.kind is Type || e.kind is Interface || e.kind is Import) ==> (
        e.change matches SymbolChange::Modified { signature_changed: true, .. } ==> c.classification@
            == "api_surface_change"@ && c.sub_classification@ == "signature_changed"@),
        e.kind is Import ==> c.classification@ == "import_change"@ && c.sub_classification@.len() == 0,
        !(e.kind is Import) ==> match e.change {
            SymbolChange::Added => c.classification@ == "structural"@ && c.sub_classification@ == "added"@,
            SymbolChange::Deleted => c.classification@ == "structural"@ && c.sub_classification@ == "deleted"@,
            SymbolChange::Moved { .. } => c.classification@ == "structural"@ && c.sub_classification@ == "moved"@,
            _ => true,
        },
        c.file == e.file && c.symbol == e.name && c.kind == e.kind,
        !(e.kind is Struct || e.kind is Enum || e.kind is Type || e.kind is Interface || e.kind is Import) ==> (
        e.change matches SymbolChange::Modified { signature_changed: false, body_changed: true, .. } ==> (
        c.classification@ == "error_handling_change"@ || c.classification@ == "behavioral"@)),
        !(e.kind is Import) ==> (e.change matches SymbolChange::Modified {
            signature_changed: false,
            body_changed: false,
            ..
        } ==> c.classification@ == "behavioral"@ && c.sub_classification@.len() == 0),
{
}

} // verus!
