use mtstark::all_stark::{
    all_cross_table_lookups, ctl_bitwise_cpu, ctl_cmp_cpu, ctl_correct_program_cpu, ctl_cpu_memory,
    ctl_memory_rc, ctl_rangecheck_cpu, check_ctl_registered, table_width, AllStark,
};
use mtstark::column::ColumnSelector;
use mtstark::config::StarkConfig;
use mtstark::cross_table_lookup::{ConfigError, CrossTableLookup};
use mtstark::field::{f_add, f_mul, f_sub, FIELD_ORDER};
use mtstark::multiset::{count_occurrences, multiset_check, tuple_eq};
use mtstark::proofs::next_power_of_two;
use mtstark::table::{Table, TableWithColumns, NUM_TABLES};
use mtstark::transcript::{commit_rows, Challenger};

#[test]
fn default_registry_is_closed_over_active_tables() {
    let all_stark = AllStark::default();
    assert!(all_stark.validate());
    assert_eq!(all_stark.cross_table_lookups.len(), 1);
    assert!(check_ctl_registered(&all_stark.cross_table_lookups[0]));
}

#[test]
fn registry_metadata_arrays_cover_every_active_table() {
    let all_stark = AllStark::default();
    let config = StarkConfig::standard_fast_config();
    let zs = all_stark.nums_permutation_zs(&config);
    let sizes = all_stark.permutation_batch_sizes();
    assert_eq!(zs.len(), NUM_TABLES);
    assert_eq!(sizes.len(), NUM_TABLES);
    assert_eq!(zs, vec![12, 8]);
    assert_eq!(sizes, vec![2, 2]);
}

#[test]
fn active_lookup_list_is_the_cpu_memory_lookup() {
    let list = all_cross_table_lookups();
    assert_eq!(list.len(), 1);
    let ctl = &list[0];
    assert_eq!(ctl.looking.len(), 4);
    for side in ctl.looking.iter() {
        assert_eq!(side.table, Table::Cpu);
        assert_eq!(side.columns.len(), 4);
    }
    assert_eq!(ctl.looked.table, Table::Memory);
    assert!(ctl.default_row.is_none());
    assert!(list[0].ctl_eq(&ctl_cpu_memory()));
}

#[test]
fn declared_but_unwired_lookups_are_well_shaped() {
    // These reference tables outside the active set, so they are not
    // registered, but their shapes validate.
    for ctl in [
        ctl_memory_rc(),
        ctl_bitwise_cpu(),
        ctl_cmp_cpu(),
        ctl_rangecheck_cpu(),
        ctl_correct_program_cpu(),
    ] {
        assert!(!check_ctl_registered(&ctl));
        let arity = ctl.looked.columns.len();
        for side in ctl.looking.iter() {
            assert_eq!(side.columns.len(), arity);
        }
    }
    assert_eq!(ctl_bitwise_cpu().looking.len(), 3);
    assert_eq!(ctl_memory_rc().looking.len(), 3);
    assert_eq!(ctl_cmp_cpu().looked.table, Table::Cmp);
    assert_eq!(ctl_rangecheck_cpu().looked.table, Table::RangeCheck);
    assert_eq!(ctl_correct_program_cpu().looked.table, Table::Program);
}

#[test]
fn lookup_construction_rejects_bad_shapes() {
    let looked = TableWithColumns::new(
        Table::Memory,
        vec![ColumnSelector::Column(0), ColumnSelector::Column(1)],
        None,
    );
    // No looking side.
    let got = CrossTableLookup::new(Vec::new(), looked, None);
    assert_eq!(got.err(), Some(ConfigError::NoLookingSide));

    // Arity mismatch between a looking side and the looked side.
    let looking = vec![TableWithColumns::new(
        Table::Cpu,
        vec![ColumnSelector::Column(0)],
        None,
    )];
    let looked = TableWithColumns::new(
        Table::Memory,
        vec![ColumnSelector::Column(0), ColumnSelector::Column(1)],
        None,
    );
    let got = CrossTableLookup::new(looking, looked, None);
    assert_eq!(got.err(), Some(ConfigError::ArityMismatch));

    // Default row of the wrong arity.
    let looking = vec![TableWithColumns::new(
        Table::Cpu,
        vec![ColumnSelector::Column(0)],
        None,
    )];
    let looked = TableWithColumns::new(Table::Memory, vec![ColumnSelector::Column(0)], None);
    let got = CrossTableLookup::new(looking, looked, Some(vec![1, 2]));
    assert_eq!(got.err(), Some(ConfigError::DefaultArityMismatch));
}

#[test]
fn empty_lookup_with_default_row_matches_as_empty_multisets() {
    // A looked side with zero selected rows, paired with a supplied
    // default row, verifies as an empty-multiset match.
    let looking = vec![TableWithColumns::new(
        Table::Cpu,
        vec![ColumnSelector::Column(0)],
        Some(ColumnSelector::Column(1)),
    )];
    let looked = TableWithColumns::new(
        Table::Memory,
        vec![ColumnSelector::Column(0)],
        Some(ColumnSelector::Column(1)),
    );
    let ctl = CrossTableLookup::new(looking, looked, Some(vec![0])).expect("shape");
    // Two tables whose filter columns are all zero.
    let traces = vec![vec![vec![5, 0]], vec![vec![9, 0], vec![4, 0]]];
    assert!(ctl.check_on(&traces).is_ok());
}

#[test]
fn table_widths_follow_the_fixed_order() {
    assert_eq!(table_width(Table::Cpu), mtstark::cpu::NUM_CPU_COLS);
    assert_eq!(table_width(Table::Memory), mtstark::memory::NUM_MEM_COLS);
    assert_eq!(Table::Cpu.index(), 0);
    assert_eq!(Table::Memory.index(), 1);
    assert!(Table::Cpu.is_active());
    assert!(Table::Memory.is_active());
    assert!(!Table::Bitwise.is_active());
    assert!(!Table::Program.is_active());
}

#[test]
fn field_arithmetic_exact_values() {
    assert_eq!(f_add(FIELD_ORDER - 1, 1), 0);
    assert_eq!(f_add(3, 4), 7);
    assert_eq!(f_sub(3, 4), FIELD_ORDER - 1);
    assert_eq!(f_mul(1 << 32, 1 << 32), (1 << 32) - 1);
    assert_eq!(f_mul(0, 77), 0);
}

#[test]
fn selector_evaluation_exact_values() {
    let row = vec![10u64, 20, 30];
    assert_eq!(ColumnSelector::Column(2).eval(&row), 30);
    assert_eq!(ColumnSelector::Constant(9).eval(&row), 9);
    let affine = ColumnSelector::Affine(vec![(0, 2), (1, 3)], 5);
    // 5 + 2*10 + 3*20 = 85
    assert_eq!(affine.eval(&row), 85);
    assert!(affine.selector_eq(&ColumnSelector::Affine(vec![(0, 2), (1, 3)], 5)));
    assert!(!affine.selector_eq(&ColumnSelector::Affine(vec![(0, 2), (1, 4)], 5)));
    assert!(!affine.selector_eq(&ColumnSelector::Column(0)));
}

#[test]
fn multiset_equality_is_order_and_multiplicity_sensitive() {
    let a = vec![vec![1u64, 2], vec![3, 4], vec![1, 2]];
    let b = vec![vec![3u64, 4], vec![1, 2], vec![1, 2]];
    assert!(multiset_check(&a, &b));
    let c = vec![vec![3u64, 4], vec![1, 2]];
    assert!(!multiset_check(&a, &c));
    let d = vec![vec![3u64, 4], vec![3, 4], vec![1, 2]];
    assert!(!multiset_check(&a, &d));
    assert_eq!(count_occurrences(&a, &vec![1, 2]), 2);
    assert_eq!(count_occurrences(&a, &vec![9, 9]), 0);
    assert!(tuple_eq(&vec![1, 2], &vec![1, 2]));
    assert!(!tuple_eq(&vec![1, 2], &vec![1, 3]));
}

#[test]
fn next_power_of_two_exact_values() {
    assert_eq!(next_power_of_two(0), 1);
    assert_eq!(next_power_of_two(1), 1);
    assert_eq!(next_power_of_two(2), 2);
    assert_eq!(next_power_of_two(3), 4);
    assert_eq!(next_power_of_two(6), 8);
    assert_eq!(next_power_of_two(8), 8);
    assert_eq!(next_power_of_two(9), 16);
}

#[test]
fn commitments_depend_on_the_committed_rows() {
    let a = commit_rows(&vec![vec![1u64, 2, 3]]);
    let b = commit_rows(&vec![vec![1u64, 2, 4]]);
    let c = commit_rows(&vec![vec![1u64, 2, 3]]);
    assert_eq!(a.len(), 32);
    assert_eq!(a, c);
    assert_ne!(a, b);
}

#[test]
fn challenges_are_deterministic_and_transcript_bound() {
    let mut c1 = Challenger::new();
    c1.observe_word(5);
    let s1 = c1.sample();
    let s2 = c1.sample();
    let mut c2 = Challenger::new();
    c2.observe_word(5);
    assert_eq!(c2.sample(), s1);
    assert_eq!(c2.sample(), s2);
    assert_ne!(s1, s2);
    let mut c3 = Challenger::new();
    c3.observe_word(6);
    assert_ne!(c3.sample(), s1);
    assert!(s1 < FIELD_ORDER);
}

#[test]
fn standard_config_values() {
    let config = StarkConfig::standard_fast_config();
    assert_eq!(config.security_bits, 100);
    assert_eq!(config.num_challenges, 2);
    assert_eq!(config.rate_bits, 1);
    assert_eq!(config.num_queries, 84);
}

#[test]
fn custom_registry_construction_is_closure_checked() {
    let ok = AllStark::with_lookups(vec![ctl_cpu_memory()]);
    assert!(ok.is_ok());
    let got = AllStark::with_lookups(vec![ctl_cpu_memory(), ctl_cmp_cpu()]);
    assert_eq!(got.err(), Some(ConfigError::InactiveTable));
}
