use chromosome::Chromosome;

#[test]
fn render_four_genes() {
    let c = Chromosome::new(vec![2, 2, 5, 8]);
    assert_eq!(c.render(), "Chromosome { 2, 2, 5, 8 }");
}

#[test]
fn render_single_gene() {
    let c = Chromosome::new(vec![7]);
    assert_eq!(c.render(), "Chromosome { 7 }");
}

#[test]
fn render_negative_and_large_genes() {
    let c = Chromosome::new(vec![-12, 0, 1000000, i64::MIN]);
    assert_eq!(c.render(), "Chromosome { -12, 0, 1000000, -9223372036854775808 }");
}

#[test]
fn render_empty_chromosome_is_guarded() {
    let c: Chromosome<i64> = Chromosome::new(vec![]);
    assert_eq!(c.render(), "Chromosome { }");
}
