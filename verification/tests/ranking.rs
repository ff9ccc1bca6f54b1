use fzz::corpus::Corpus;
use fzz::rank::{rank, Options};
use fzz::score::{Score, Threshold};
use fzz::utils::{contains_fuzzy_search, trigram_fuzzy_compare, trigrams};

fn chars(s: &str) -> Vec<char> {
    s.chars().collect()
}

fn corpus_of(lines: &[&str]) -> Corpus {
    let mut c = Corpus::new();
    let lines: Vec<Vec<char>> = lines.iter().map(|l| chars(l)).collect();
    c.append(&lines, '\n');
    c
}

fn default_options() -> Options {
    Options { delimiter: '\n', case_insensitive: false, threshold: Threshold { num: 1, den: 5 } }
}

#[test]
fn empty_query_keeps_everything_in_tie_break_order() {
    let c = corpus_of(&["apple", "banana", "grape"]);
    let r = rank(&c, &chars(""), &default_options());
    assert_eq!(r.len(), 3);
    // all scores are zero; length then original index order the list
    assert_eq!(r[0].text, chars("apple"));
    assert_eq!(r[0].index, 0);
    assert_eq!(r[1].text, chars("grape"));
    assert_eq!(r[1].index, 2);
    assert_eq!(r[2].text, chars("banana"));
    assert_eq!(r[2].index, 1);
    for item in &r {
        assert_eq!(item.score, Score::Zero);
    }
}

#[test]
fn trigram_query_ranks_by_score_and_filters() {
    let c = corpus_of(&["cat", "caterpillar", "dog"]);
    let r = rank(&c, &chars("cat"), &default_options());
    assert_eq!(r.len(), 2);
    assert_eq!(r[0].text, chars("cat"));
    assert_eq!(r[0].index, 0);
    assert_eq!(r[0].score, Score::Trigram { shared: 4, window_count: 4 });
    assert_eq!(r[1].text, chars("caterpillar"));
    assert_eq!(r[1].index, 1);
    assert_eq!(r[1].score, Score::Trigram { shared: 3, window_count: 4 });
}

#[test]
fn ranking_twice_gives_identical_lists() {
    let c = corpus_of(&["apple", "banana", "grape", "pineapple", "pear"]);
    let opts = default_options();
    let q = chars("ap");
    let r1 = rank(&c, &q, &opts);
    let r2 = rank(&c, &q, &opts);
    assert_eq!(r1, r2);
}

#[test]
fn containment_query_scores_exactly() {
    let c = corpus_of(&["banana"]);
    let r = rank(&c, &chars("ab"), &default_options());
    assert_eq!(r.len(), 1);
    // 'a' occurs three times and 'b' once: 1 - 2/4 = 1/2
    assert_eq!(r[0].score, Score::Containment { match_count: 4, query_len: 2 });
}

#[test]
fn containment_without_matches_is_excluded() {
    let c = corpus_of(&["banana"]);
    let r = rank(&c, &chars("xy"), &default_options());
    assert_eq!(r.len(), 0);
}

#[test]
fn containment_at_raw_value_zero_is_excluded() {
    // exactly one match for one query character: 1 - 1/1 = 0, not above
    // the threshold
    let c = corpus_of(&["b"]);
    let r = rank(&c, &chars("b"), &default_options());
    assert_eq!(r.len(), 0);
}

#[test]
fn threshold_comparison_is_strict() {
    // query "abcd" shares exactly the leading window with entry "a":
    // score 1/5, equal to the default threshold, so the entry is dropped
    let c = corpus_of(&["a"]);
    let r = rank(&c, &chars("abcd"), &default_options());
    assert_eq!(r.len(), 0);

    let mut lower = default_options();
    lower.threshold = Threshold { num: 19, den: 100 };
    let r = rank(&c, &chars("abcd"), &lower);
    assert_eq!(r.len(), 1);
    assert_eq!(r[0].score, Score::Trigram { shared: 1, window_count: 5 });
}

#[test]
fn case_insensitive_option_folds_entries_not_query() {
    let c = corpus_of(&["APPLE", "BANANA"]);
    let mut opts = default_options();
    opts.case_insensitive = true;
    let r = rank(&c, &chars("apple"), &opts);
    assert_eq!(r.len(), 1);
    // the ranked list carries the folded text
    assert_eq!(r[0].text, chars("apple"));
    assert_eq!(r[0].index, 0);
    assert_eq!(r[0].score, Score::Trigram { shared: 6, window_count: 6 });

    // an uppercase query is not folded, so it cannot match folded entries
    let r = rank(&c, &chars("APPLE"), &opts);
    assert_eq!(r.len(), 0);
}

#[test]
fn case_sensitive_by_default() {
    let c = corpus_of(&["APPLE"]);
    let r = rank(&c, &chars("apple"), &default_options());
    assert_eq!(r.len(), 0);
}

#[test]
fn equal_scores_sort_shorter_first_then_by_index() {
    // with an empty query every score is zero: pure tie-break ordering
    let c = corpus_of(&["bbbb", "aa", "cc", "x"]);
    let r = rank(&c, &chars(""), &default_options());
    let texts: Vec<Vec<char>> = r.iter().map(|i| i.text.clone()).collect();
    assert_eq!(texts, vec![chars("x"), chars("aa"), chars("cc"), chars("bbbb")]);
    let indices: Vec<usize> = r.iter().map(|i| i.index).collect();
    assert_eq!(indices, vec![3, 1, 2, 0]);
}

#[test]
fn custom_delimiter_splits_entries() {
    let mut c = Corpus::new();
    c.append(&vec![chars("red,green,blue")], ',');
    let mut opts = default_options();
    opts.delimiter = ',';
    let r = rank(&c, &chars(""), &opts);
    assert_eq!(r.len(), 3);
    assert_eq!(r[0].text, chars("red"));
    assert_eq!(r[1].text, chars("blue"));
    assert_eq!(r[2].text, chars("green"));
}

#[test]
fn empty_corpus_ranks_empty() {
    let c = Corpus::new();
    let r = rank(&c, &chars("query"), &default_options());
    assert_eq!(r.len(), 0);
    let r = rank(&c, &chars(""), &default_options());
    assert_eq!(r.len(), 0);
}

#[test]
fn trigrams_pad_with_spaces() {
    let t = trigrams(&chars("cat"));
    assert_eq!(
        t,
        vec![
            vec![' ', ' ', 'c'],
            vec![' ', 'c', 'a'],
            vec!['c', 'a', 't'],
            vec!['a', 't', ' '],
        ]
    );
    let t = trigrams(&chars(""));
    assert_eq!(t, vec![vec![' ', ' ', ' ']]);
}

#[test]
fn trigram_fuzzy_compare_counts_shared_windows() {
    let s = trigram_fuzzy_compare(&chars("cat"), &chars("concatenate"));
    // both texts open with the padded window for 'c', and "cat" occurs
    // inside the entry; the query's other two windows do not
    assert_eq!(s, Score::Trigram { shared: 2, window_count: 4 });
    let s = trigram_fuzzy_compare(&chars("cat"), &chars("cat"));
    assert_eq!(s, Score::Trigram { shared: 4, window_count: 4 });
}

#[test]
fn contains_fuzzy_search_counts_occurrences() {
    let s = contains_fuzzy_search(&chars("na"), &chars("banana"));
    // 'n' twice and 'a' three times: match count five
    assert_eq!(s, Score::Containment { match_count: 5, query_len: 2 });
    let s = contains_fuzzy_search(&chars("q"), &chars("banana"));
    assert_eq!(s, Score::Zero);
}
