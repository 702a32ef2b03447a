use mindcore::scoring::category::{category_matches, category_matches_lowered};
use mindcore::search::fts5::{sanitize_fts5_query, FtsSearch};
use mindcore::search::hybrid::{analyze_lowered, analyze_query};
use mindcore::search::query_expand::{
    cut_is_defined_with, expand_query, expand_with_lowercase, try_expand_query, FilterOp, Timestamp,
};

fn now() -> Timestamp {
    Timestamp { secs: 1_700_000_000, nanos: 123 }
}

#[test]
fn quoted_query_favors_keyword() {
    let (kw_k, vec_k) = analyze_query("\"exact phrase\" search");
    assert!(kw_k < vec_k, "quoted query should favor keyword (lower k)");
}

#[test]
fn question_favors_vector() {
    let (kw_k, vec_k) = analyze_query("how does authentication work");
    assert!(vec_k < kw_k, "question should favor vector (lower k)");
}

#[test]
fn default_equal_weight() {
    let (kw_k, vec_k) = analyze_query("authentication error JWT");
    assert_eq!(kw_k, vec_k, "default should be equal weight");
}

#[test]
fn analyze_query_exact_values() {
    assert_eq!(analyze_query("say \"hi\" how"), (40, 60));
    assert_eq!(analyze_query("Explain   the\tdesign"), (60, 40));
    assert_eq!(analyze_query("whatever happened"), (60, 60));
    assert_eq!(analyze_query(""), (60, 60));
}

#[test]
fn sanitize_removes_syntax() {
    assert_eq!(sanitize_fts5_query("auth* AND (error)"), "auth AND error");
    assert_eq!(sanitize_fts5_query("-negated term"), "negated term");
    assert_eq!(sanitize_fts5_query("well-known  fact"), "well-known fact");
    assert_eq!(sanitize_fts5_query("a -b"), "a b");
    assert_eq!(sanitize_fts5_query("\"quoted\":x^y{z}+w~v?"), "quoted x y z w v");
    assert_eq!(sanitize_fts5_query("   "), "");
    assert_eq!(sanitize_fts5_query("***"), "");
}

#[test]
fn sanitize_strips_minus_after_any_whitespace() {
    assert_eq!(sanitize_fts5_query("a\t-b"), "a b");
    assert_eq!(sanitize_fts5_query("a\n-b -c"), "a b c");
    assert_eq!(sanitize_fts5_query("(-x)"), "x");
    assert_eq!(sanitize_fts5_query("e-mail"), "e-mail");
    assert_eq!(sanitize_fts5_query("--x"), "x");
    for q in ["a\t-b", "x -y\t--z", "e-mail", "(-x) +y"] {
        let once = sanitize_fts5_query(q);
        for w in once.split(' ') {
            assert!(!w.starts_with('-'), "{q:?} gives {once:?}");
        }
    }
}

#[test]
fn sanitize_is_idempotent() {
    for q in ["a\t-b", "auth* AND (error)", "well-known  fact", " -x\n y-z- ", ""] {
        let once = sanitize_fts5_query(q);
        assert_eq!(sanitize_fts5_query(&once), once);
    }
}

#[test]
fn prepare_query_skips_empty() {
    assert_eq!(FtsSearch::prepare_query("  "), None);
    assert_eq!(FtsSearch::prepare_query("(*)"), None);
    assert_eq!(FtsSearch::prepare_query(" build  error "), Some("build error".to_string()));
    assert_eq!(FtsSearch::overfetch_limit(10, 3), 30);
}

#[test]
fn no_temporal_expression() {
    let result = expand_query("authentication error JWT", now());
    assert_eq!(result.cleaned_text, "authentication error JWT");
    assert!(result.date_filters.is_empty());
}

#[test]
fn last_week_expansion() {
    let result = expand_query("errors from last week", now());
    assert_eq!(result.cleaned_text, "errors from");
    assert_eq!(result.date_filters.len(), 1);
    assert!(matches!(result.date_filters[0].operator, FilterOp::After(_)));
}

#[test]
fn yesterday_expansion() {
    let result = expand_query("what happened yesterday", now());
    assert!(result.date_filters.len() == 1);
    assert!(matches!(result.date_filters[0].operator, FilterOp::Between(_, _)));
}

#[test]
fn last_month_expansion() {
    let result = expand_query("decisions last month", now());
    assert_eq!(result.date_filters.len(), 1);
    assert_eq!(result.date_filters[0].column, "created_at");
}

#[test]
fn cleaned_text_usable_for_fts() {
    let result = expand_query("build errors from last week in production", now());
    assert!(result.cleaned_text.contains("build errors"));
    assert!(result.cleaned_text.contains("production"));
    assert!(!result.cleaned_text.contains("last week"));
}

#[test]
fn expansion_filter_times() {
    let n = now();
    let r = expand_query("What happened YESTERDAY?", n);
    assert_eq!(r.cleaned_text, "What happened ?");
    assert_eq!(
        r.date_filters[0].operator,
        FilterOp::Between(
            Timestamp { secs: n.secs - 2 * 86400, nanos: 123 },
            Timestamp { secs: n.secs - 86400, nanos: 123 }
        )
    );
    let r = expand_query("recently today", n);
    // "today" comes before "recently" in the order of expressions.
    assert_eq!(r.cleaned_text, "recently");
    assert_eq!(r.date_filters[0].operator, FilterOp::After(Timestamp { secs: n.secs - 86400, nanos: 123 }));
    let r = expand_query("last year", n);
    assert_eq!(r.cleaned_text, "");
    assert_eq!(r.date_filters[0].operator, FilterOp::After(Timestamp { secs: n.secs - 365 * 86400, nanos: 123 }));
}

#[test]
fn expansion_refused_off_boundary() {
    // 'İ' lowercases to two characters (three bytes instead of two), so the
    // end of the expression in the lowercased text falls inside the 'é' of
    // the query.
    let q = "İyesterdayé";
    assert!(try_expand_query(q, now()).is_none());
    assert!(try_expand_query("notes yesterday", now()).is_some());
}

#[test]
fn category_direct_match() {
    assert!(category_matches(Some("error"), "show me the error"));
    assert!(category_matches(Some("Error"), "SHOW ME THE ERROR"));
}

#[test]
fn category_keyword_hint_match() {
    assert!(category_matches(Some("error"), "why did it fail"));
    assert!(category_matches(Some("pattern"), "how to deploy"));
    assert!(category_matches(Some("lesson"), "key takeaway"));
    assert!(category_matches(Some("decision"), "which approach"));
}

#[test]
fn category_no_match() {
    assert!(!category_matches(Some("error"), "what is the architecture"));
    assert!(!category_matches(None, "error query"));
    assert!(!category_matches(Some("custom"), "why did it fail"));
}

#[test]
fn lowercased_steps_read_the_given_lowercase() {
    // The query analysis reads its words from the lowercased text it is given.
    assert_eq!(analyze_lowered("What is it", "what is it"), (60, 40));
    assert_eq!(analyze_lowered("What is it", "WHAT IS IT"), (60, 60));
    assert_eq!(analyze_lowered("say \"hi\"", "say \"hi\""), (40, 60));
    // The category match compares the lowercased texts as given.
    assert!(category_matches_lowered("error", "the build failed"));
    assert!(category_matches_lowered("lesson", "one lesson"));
    assert!(!category_matches_lowered("error", "THE BUILD FAILED"));
    assert!(!category_matches_lowered("decision", "random text"));
}

#[test]
fn expansion_from_lowercase() {
    let n = now();
    let q = "errors from last week";
    assert!(cut_is_defined_with(q, q));
    let r = expand_with_lowercase(q, q, n);
    assert_eq!(r.cleaned_text, "errors from");
    assert_eq!(r.date_filters.len(), 1);
    assert_eq!(r.date_filters[0].column, "created_at");
    assert_eq!(r.date_filters[0].operator, FilterOp::After(Timestamp { secs: n.secs - 7 * 86400, nanos: 123 }));
    let r = expand_with_lowercase("Notes LAST MONTH here", "notes last month here", n);
    assert_eq!(r.cleaned_text, "Notes here");
    assert_eq!(r.date_filters[0].operator, FilterOp::After(Timestamp { secs: n.secs - 30 * 86400, nanos: 123 }));
    // Nothing temporal in the lowercased text: the query is kept as it is.
    let r = expand_with_lowercase("Last Week", "Last Week", n);
    assert_eq!(r.cleaned_text, "Last Week");
    assert!(r.date_filters.is_empty());
}

#[test]
fn sanitize_keeps_a_subsequence() {
    for q in ["auth* AND (error)", "a\t-b", "well-known  fact", "\"quoted\":x^y", "-x -y z-"] {
        let out = sanitize_fts5_query(q);
        let mut rest = q.chars();
        for c in out.chars().filter(|c| !c.is_whitespace()) {
            assert!(rest.any(|d| d == c), "{q:?} gives {out:?}");
        }
    }
}
