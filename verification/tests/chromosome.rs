use birdsim::chromosome::Chromosome;
use birdsim::fx::FX_ONE;

fn chromosome() -> Chromosome {
    Chromosome::from_genes(vec![3 * FX_ONE, 1 * FX_ONE, 2 * FX_ONE])
}

#[test]
fn len_test() {
    assert_eq!(chromosome().len(), 3);
}

#[test]
fn iter_test() {
    let chromosome = chromosome();
    let genes = chromosome.to_genes();

    assert_eq!(genes.len(), 3);
    assert_eq!(genes[0], 3 * FX_ONE);
    assert_eq!(genes[1], 1 * FX_ONE);
    assert_eq!(genes[2], 2 * FX_ONE);
}

#[test]
fn iter_mut_test() {
    let mut chromosome = chromosome();

    for i in 0..chromosome.len() {
        let gene = chromosome.gene(i);
        chromosome.set_gene(i, gene * 10);
    }

    let genes = chromosome.to_genes();

    assert_eq!(genes.len(), 3);
    assert_eq!(genes[0], 30 * FX_ONE);
    assert_eq!(genes[1], 10 * FX_ONE);
    assert_eq!(genes[2], 20 * FX_ONE);
}

#[test]
fn index_test() {
    let chromosome = chromosome();

    assert_eq!(chromosome.gene(0), 3 * FX_ONE);
    assert_eq!(chromosome.gene(1), 1 * FX_ONE);
    assert_eq!(chromosome.gene(2), 2 * FX_ONE);
}

#[test]
fn test() {
    let chromosome: Chromosome = Chromosome::from_genes(vec![3 * FX_ONE, 1 * FX_ONE, 2 * FX_ONE]);

    assert_eq!(chromosome.gene(0), 3 * FX_ONE);
    assert_eq!(chromosome.gene(1), 1 * FX_ONE);
    assert_eq!(chromosome.gene(2), 2 * FX_ONE);
}

#[test]
fn into_iterator_test() {
    let chromosome = chromosome();

    let genes: Vec<i64> = chromosome.to_genes();

    assert_eq!(genes.len(), 3);
    assert_eq!(genes[0], 3 * FX_ONE);
    assert_eq!(genes[1], 1 * FX_ONE);
    assert_eq!(genes[2], 2 * FX_ONE);
}

#[test]
fn equality_test() {
    let a = chromosome();
    let b = chromosome();
    let c = Chromosome::from_genes(vec![3 * FX_ONE, 1 * FX_ONE]);

    assert!(a == b);
    assert!(a != c);
}
