use jsx_transpiler::export_type::ExportType;

const ALL: [ExportType; 4] =
    [ExportType::JSX, ExportType::AsyncJSX, ExportType::Other, ExportType::AsyncOther];

#[test]
fn awaited_maps_to_the_deferred_type() {
    assert_eq!(ExportType::JSX.awaited(), ExportType::AsyncJSX);
    assert_eq!(ExportType::Other.awaited(), ExportType::AsyncOther);
    assert_eq!(ExportType::AsyncJSX.awaited(), ExportType::AsyncJSX);
    assert_eq!(ExportType::AsyncOther.awaited(), ExportType::AsyncOther);
}

#[test]
fn awaited_is_idempotent() {
    for t in ALL {
        assert_eq!(t.awaited().awaited(), t.awaited());
        assert!(t.awaited().is_async());
    }
    assert_eq!(ExportType::JSX.awaited().awaited(), ExportType::AsyncJSX);
}

#[test]
fn is_async_tells_deferred_from_immediate() {
    assert!(!ExportType::JSX.is_async());
    assert!(ExportType::AsyncJSX.is_async());
    assert!(!ExportType::Other.is_async());
    assert!(ExportType::AsyncOther.is_async());
}

#[test]
fn priority_orders_the_four_types() {
    assert_eq!(ExportType::AsyncJSX.priority(), 3);
    assert_eq!(ExportType::JSX.priority(), 2);
    assert_eq!(ExportType::AsyncOther.priority(), 1);
    assert_eq!(ExportType::Other.priority(), 0);
}

#[test]
fn join_takes_the_higher_priority() {
    assert_eq!(ExportType::JSX.gt(ExportType::Other), ExportType::JSX);
    assert_eq!(ExportType::Other.gt(ExportType::JSX), ExportType::JSX);
    assert_eq!(ExportType::AsyncOther.gt(ExportType::JSX), ExportType::JSX);
    assert_eq!(ExportType::AsyncOther.gt(ExportType::Other), ExportType::AsyncOther);
    for a in ALL {
        for b in ALL {
            assert_eq!(a.gt(b), b.gt(a));
            assert!(a.gt(b).priority() >= a.priority());
            assert!(a.gt(b).priority() >= b.priority());
        }
        assert_eq!(a.gt(a), a);
        assert_eq!(ExportType::AsyncJSX.gt(a), ExportType::AsyncJSX);
        assert_eq!(a.gt(ExportType::AsyncJSX), ExportType::AsyncJSX);
    }
}
