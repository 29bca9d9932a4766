use hint_graph::{Builder, GraphError, Node, OPERATION};

#[test]
fn test_polynomial() {
    let mut builder = Builder::new();
    let x = builder.init();
    let x_squared = builder.mul(x, x);
    let five = builder.constant(5);
    let x_squared_plus_5 = builder.add(x_squared, five);
    let y = builder.add(x_squared_plus_5, x);
    assert_eq!(builder.fill_nodes(x, 6), Ok(()));
    assert_eq!(builder.check_constraints(), Ok(true));
    assert_eq!(builder.get_node(y).output.unwrap(), 47);
}

#[test]
#[should_panic]
fn test_polynomial_panic() {
    let mut builder = Builder::new();
    let x = builder.init();
    let x_squared = builder.mul(x, x);
    let five = builder.constant(5);
    let x_squared_plus_5 = builder.add(x_squared, five);
    let y = builder.add(x_squared_plus_5, x);
    builder.fill_nodes(x, 6).unwrap();
    builder.check_constraints().unwrap();
    assert_eq!(builder.get_node(y).output.unwrap(), 46);
}

#[test]
fn test_hint() {
    let mut builder = Builder::new();
    let a = builder.init();
    let one = builder.constant(1);
    let b = builder.add(a, one);
    // (a + 1) / 8 == 1 is shown by c * 8 == a + 1.
    let c = builder.hint(1, b);
    let eight = builder.constant(8);
    let c_times_8 = builder.mul(c, eight);
    assert_eq!(builder.fill_nodes(a, 7), Ok(()));
    assert_eq!(builder.check_constraints(), Ok(true));
    assert_eq!(builder.assert_equal(c, c_times_8), Ok(true));
}

#[test]
#[should_panic]
fn test_hint_panic() {
    let mut builder = Builder::new();
    let a = builder.init();
    let one = builder.constant(1);
    let b = builder.add(a, one);
    let c = builder.hint(1, b);
    let eight = builder.constant(8);
    let c_times_8 = builder.mul(c, eight);
    // 7 != 8, so the hint is rejected.
    builder.fill_nodes(a, 6).unwrap();
    builder.check_constraints().unwrap();
    let _ = builder.assert_equal(c, c_times_8).unwrap();
}

#[test]
fn test_sqrt() {
    let mut builder = Builder::new();
    let x = builder.init();
    let seven = builder.constant(7);
    let x_plus_seven = builder.add(x, seven);
    let sqrt_x_plus_7 = builder.hint(4, x_plus_seven);
    let computed_sq = builder.mul(sqrt_x_plus_7, sqrt_x_plus_7);
    assert_eq!(builder.fill_nodes(x, 9), Ok(()));
    assert_eq!(builder.check_constraints(), Ok(true));
    assert_eq!(builder.assert_equal(sqrt_x_plus_7, computed_sq), Ok(true));
}

#[test]
#[should_panic]
fn test_sqrt_panic() {
    let mut builder = Builder::new();
    let x = builder.init();
    let seven = builder.constant(7);
    let x_plus_seven = builder.add(x, seven);
    let sqrt_x_plus_7 = builder.hint(4, x_plus_seven);
    let computed_sq = builder.mul(sqrt_x_plus_7, sqrt_x_plus_7);
    builder.fill_nodes(x, 10).unwrap();
    builder.check_constraints().unwrap();
    let _ = builder.assert_equal(sqrt_x_plus_7, computed_sq).unwrap();
}

#[test]
fn hint_mismatch_reports_both_values() {
    let mut builder = Builder::new();
    let a = builder.init();
    let one = builder.constant(1);
    let b = builder.add(a, one);
    let c = builder.hint(1, b);
    let eight = builder.constant(8);
    let c_times_8 = builder.mul(c, eight);
    assert_eq!(builder.fill_nodes(a, 6), Ok(()));
    assert_eq!(builder.check_constraints(), Ok(true));
    assert_eq!(
        builder.assert_equal(c, c_times_8),
        Err(GraphError::ConstraintViolation { node: c_times_8, expected: 7, actual: 8 })
    );
}

#[test]
fn sqrt_mismatch_reports_both_values() {
    let mut builder = Builder::new();
    let x = builder.init();
    let seven = builder.constant(7);
    let s = builder.add(x, seven);
    let h = builder.hint(4, s);
    let sq = builder.mul(h, h);
    assert_eq!(builder.fill_nodes(x, 10), Ok(()));
    assert_eq!(builder.check_constraints(), Ok(true));
    assert_eq!(
        builder.assert_equal(h, sq),
        Err(GraphError::ConstraintViolation { node: sq, expected: 17, actual: 16 })
    );
}

#[test]
fn construction_records_each_node() {
    let mut builder = Builder::new();
    assert_eq!(builder.len(), 0);
    let x = builder.init();
    let c = builder.constant(5);
    let s = builder.add(x, c);
    let p = builder.mul(s, x);
    let h = builder.hint(3, p);
    assert_eq!((x, c, s, p, h), (0, 1, 2, 3, 4));
    assert_eq!(builder.len(), 5);
    assert_eq!(
        builder.clone().get_node(x),
        Node { id: 0, inputs: (None, None), op: None, output: None, hint: None }
    );
    assert_eq!(
        builder.clone().get_node(c),
        Node { id: 1, inputs: (None, None), op: None, output: Some(5), hint: None }
    );
    assert_eq!(
        builder.clone().get_node(s),
        Node {
            id: 2,
            inputs: (Some(0), Some(1)),
            op: Some(OPERATION::ADD),
            output: None,
            hint: None
        }
    );
    assert_eq!(
        builder.clone().get_node(p),
        Node {
            id: 3,
            inputs: (Some(2), Some(0)),
            op: Some(OPERATION::MUL),
            output: None,
            hint: None
        }
    );
    assert_eq!(
        builder.get_node(h),
        Node { id: 4, inputs: (None, None), op: None, output: Some(3), hint: Some(3) }
    );
}

#[test]
fn clone_is_independent() {
    let mut builder = Builder::new();
    let x = builder.init();
    let y = builder.add(x, x);
    let mut copy = builder.clone();
    assert_eq!(copy.fill_nodes(x, 4), Ok(()));
    assert_eq!(copy.get_node(y).output, Some(8));
    assert_eq!(builder.get_node(y).output, None);
}

fn outputs(builder: &Builder) -> Vec<Option<u32>> {
    let mut all = Vec::new();
    for id in 0..builder.len() {
        all.push(builder.clone().get_node(id).output);
    }
    all
}

fn polynomial() -> (Builder, usize) {
    // x, x*x, 5, x*x + 5, x*x + 5 + x
    let mut builder = Builder::new();
    let x = builder.init();
    let sq = builder.mul(x, x);
    let five = builder.constant(5);
    let sum = builder.add(sq, five);
    let _ = builder.add(sum, x);
    (builder, x)
}

#[test]
fn fill_gives_every_node_its_algebraic_value() {
    let (mut builder, x) = polynomial();
    assert_eq!(builder.fill_nodes(x, 6), Ok(()));
    assert_eq!(outputs(&builder), vec![Some(6), Some(36), Some(5), Some(41), Some(47)]);
    assert_eq!(builder.check_constraints(), Ok(true));
}

#[test]
fn fill_twice_with_same_value_changes_nothing() {
    let (mut builder, x) = polynomial();
    assert_eq!(builder.fill_nodes(x, 6), Ok(()));
    let once = outputs(&builder);
    assert_eq!(builder.fill_nodes(x, 6), Ok(()));
    assert_eq!(outputs(&builder), once);
}

#[test]
fn refill_leaves_no_stale_values() {
    let (mut builder, x) = polynomial();
    assert_eq!(builder.fill_nodes(x, 6), Ok(()));
    assert_eq!(builder.fill_nodes(x, 2), Ok(()));
    assert_eq!(builder.check_constraints(), Ok(true));
    assert_eq!(outputs(&builder), vec![Some(2), Some(4), Some(5), Some(9), Some(11)]);
    let (mut fresh, fx) = polynomial();
    assert_eq!(fresh.fill_nodes(fx, 2), Ok(()));
    assert_eq!(outputs(&builder), outputs(&fresh));
}

#[test]
fn fill_leaves_constants_and_hints_alone() {
    let mut builder = Builder::new();
    let x = builder.init();
    let c = builder.constant(3);
    let h = builder.hint(9, x);
    let other = builder.init();
    assert_eq!(builder.fill_nodes(x, 1), Ok(()));
    assert_eq!(outputs(&builder), vec![Some(1), Some(3), Some(9), None]);
    assert_eq!((c, h, other), (1, 2, 3));
}

#[test]
fn fill_rejects_unknown_input() {
    let (mut builder, _) = polynomial();
    assert_eq!(builder.fill_nodes(5, 1), Err(GraphError::InvalidIndex { index: 5 }));
    assert_eq!(outputs(&builder), vec![None, None, Some(5), None, None]);
    let mut empty = Builder::new();
    assert_eq!(empty.fill_nodes(0, 1), Err(GraphError::InvalidIndex { index: 0 }));
}

#[test]
fn fill_stops_at_unset_operand() {
    let mut builder = Builder::new();
    let x = builder.init();
    let w = builder.init();
    let d = builder.add(x, x);
    let s = builder.add(x, w);
    let t = builder.add(w, x);
    assert_eq!(builder.fill_nodes(x, 2), Err(GraphError::UnsetOutput { node: w }));
    assert_eq!(outputs(&builder), vec![Some(2), None, Some(4), None, None]);
    assert_eq!(builder.fill_nodes(w, 3), Ok(()));
    assert_eq!(outputs(&builder), vec![Some(2), Some(3), Some(4), Some(5), Some(5)]);
    assert_eq!((d, s, t), (2, 3, 4));
}

#[test]
fn fill_reports_left_operand_first() {
    let mut builder = Builder::new();
    let u = builder.init();
    let w = builder.init();
    let x = builder.init();
    let _ = builder.add(w, u);
    assert_eq!(builder.fill_nodes(x, 2), Err(GraphError::UnsetOutput { node: w }));
}

#[test]
fn fill_stops_at_overflow() {
    let mut builder = Builder::new();
    let x = builder.init();
    let one = builder.constant(1);
    let sum = builder.add(x, one);
    let sq = builder.mul(x, x);
    let last = builder.add(x, x);
    assert_eq!(builder.fill_nodes(x, u32::MAX), Err(GraphError::Overflow { node: sum }));
    assert_eq!(outputs(&builder), vec![Some(u32::MAX), Some(1), None, None, None]);
    assert_eq!(builder.fill_nodes(x, 65536), Err(GraphError::Overflow { node: sq }));
    assert_eq!(outputs(&builder), vec![Some(65536), Some(1), Some(65537), None, None]);
    assert_eq!(builder.check_constraints(), Err(GraphError::Overflow { node: sq }));
    assert_eq!(builder.fill_nodes(x, 65535), Ok(()));
    assert_eq!(
        outputs(&builder),
        vec![Some(65535), Some(1), Some(65536), Some(4294836225), Some(131070)]
    );
    assert_eq!(last, 4);
}

#[test]
fn largest_results_fit() {
    let mut builder = Builder::new();
    let x = builder.init();
    let one = builder.constant(1);
    let sum = builder.add(x, one);
    let prod = builder.mul(x, one);
    assert_eq!(builder.fill_nodes(x, u32::MAX - 1), Ok(()));
    assert_eq!(builder.clone().get_node(sum).output, Some(u32::MAX));
    assert_eq!(builder.fill_nodes(one, 1), Ok(()));
    assert_eq!(builder.fill_nodes(x, 0), Ok(()));
    assert_eq!(builder.get_node(prod).output, Some(0));
}

#[test]
fn fill_on_a_computed_node_recomputes_it() {
    let mut builder = Builder::new();
    let c = builder.constant(2);
    let d = builder.add(c, c);
    assert_eq!(builder.fill_nodes(d, 100), Ok(()));
    assert_eq!(outputs(&builder), vec![Some(2), Some(4)]);
}

#[test]
fn check_before_fill_reports_unset_output() {
    let (builder, x) = polynomial();
    assert_eq!(builder.check_constraints(), Err(GraphError::UnsetOutput { node: x }));
    let mut constants = Builder::new();
    let c = constants.constant(2);
    let d = constants.mul(c, c);
    assert_eq!(constants.check_constraints(), Err(GraphError::UnsetOutput { node: d }));
}

#[test]
fn check_accepts_graph_without_computed_nodes() {
    let mut builder = Builder::new();
    assert_eq!(builder.check_constraints(), Ok(true));
    let _ = builder.init();
    let _ = builder.constant(1);
    assert_eq!(builder.check_constraints(), Ok(true));
}

#[test]
fn assert_equal_rejects_structural_misuse() {
    let mut builder = Builder::new();
    let x = builder.init();
    let c = builder.constant(4);
    let h = builder.hint(4, x);
    let far = builder.hint(4, 17);
    let onto_c = builder.hint(9, c);
    assert_eq!(builder.assert_equal(9, c), Err(GraphError::InvalidIndex { index: 9 }));
    assert_eq!(builder.assert_equal(c, c), Err(GraphError::MissingHint { node: c }));
    assert_eq!(builder.assert_equal(far, c), Err(GraphError::InvalidIndex { index: 17 }));
    assert_eq!(builder.assert_equal(h, c), Err(GraphError::UnsetOutput { node: x }));
    assert_eq!(builder.assert_equal(onto_c, 9), Err(GraphError::InvalidIndex { index: 9 }));
    assert_eq!(builder.assert_equal(onto_c, x), Err(GraphError::UnsetOutput { node: x }));
    assert_eq!(builder.assert_equal(onto_c, c), Ok(true));
    assert_eq!(builder.assert_equal(onto_c, h), Ok(true));
    assert_eq!(
        builder.assert_equal(onto_c, onto_c),
        Err(GraphError::ConstraintViolation { node: onto_c, expected: 4, actual: 9 })
    );
}

#[test]
fn assert_equal_compares_linked_node_not_hint_value() {
    let mut builder = Builder::new();
    let x = builder.init();
    let h = builder.hint(5, x);
    let c = builder.constant(5);
    assert_eq!(builder.fill_nodes(x, 6), Ok(()));
    assert_eq!(
        builder.assert_equal(h, c),
        Err(GraphError::ConstraintViolation { node: c, expected: 6, actual: 5 })
    );
    assert_eq!(builder.assert_equal(h, x), Ok(true));
}

#[test]
fn errors_are_told_apart() {
    assert!(GraphError::InvalidIndex { index: 0 }.is_structural());
    assert!(GraphError::MissingHint { node: 0 }.is_structural());
    assert!(GraphError::UnsetOutput { node: 0 }.is_structural());
    assert!(!GraphError::Overflow { node: 0 }.is_structural());
    assert!(!GraphError::ConstraintViolation { node: 0, expected: 1, actual: 2 }.is_structural());
}

#[test]
fn checked_apply_is_exact() {
    assert_eq!(OPERATION::ADD.checked_apply(3, 4), Some(7));
    assert_eq!(OPERATION::MUL.checked_apply(3, 4), Some(12));
    assert_eq!(OPERATION::ADD.checked_apply(u32::MAX, 1), None);
    assert_eq!(OPERATION::MUL.checked_apply(65536, 65536), None);
    assert_eq!(OPERATION::MUL.checked_apply(65535, 65537), Some(u32::MAX));
}
