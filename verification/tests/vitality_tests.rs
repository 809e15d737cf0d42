use cuda_biology::settle_spend;

#[test]
fn refused_spends_count_up_to_apoptosis() {
    // patience of three: the third refused spend in a row is fatal
    let (t1, d1) = settle_spend(0, 3, false);
    assert_eq!((t1, d1), (1, false));
    let (t2, d2) = settle_spend(t1, 3, false);
    assert_eq!((t2, d2), (2, false));
    let (t3, d3) = settle_spend(t2, 3, false);
    assert_eq!((t3, d3), (3, true));
}

#[test]
fn affordable_spend_lowers_count_to_zero() {
    assert_eq!(settle_spend(2, 10, true), (1, false));
    assert_eq!(settle_spend(1, 10, true), (0, false));
    assert_eq!(settle_spend(0, 10, true), (0, false));
    assert_eq!(settle_spend(0, 0, true), (0, false));
}

#[test]
fn zero_patience_dies_at_first_refusal() {
    assert_eq!(settle_spend(0, 0, false), (1, true));
}

#[test]
fn recovery_delays_apoptosis() {
    let mut ticks = 0;
    let mut died = false;
    for affordable in [false, false, true, false, false] {
        let (t, d) = settle_spend(ticks, 3, affordable);
        ticks = t;
        died = d;
        if died {
            break;
        }
    }
    assert_eq!(ticks, 3);
    assert!(died);
    assert_eq!(settle_spend(u32::MAX - 1, u32::MAX, false), (u32::MAX, true));
}
