use rootcause::report::ReportCollection;
use std::marker::PhantomData;

fn assert_send_sync<T: Send + Sync>() {}

fn assert_clone<T: Clone>() {}

struct Probe<T>(PhantomData<T>);

trait CopyProbe {
    fn is_copy(&self) -> bool {
        true
    }
}

impl<T: Copy> CopyProbe for Probe<T> {}

trait NotCopyProbe {
    fn is_copy(&self) -> bool {
        false
    }
}

impl<T> NotCopyProbe for &Probe<T> {}

#[test]
fn test_report_collection_send_sync() {
    assert_send_sync::<ReportCollection>();
}

#[test]
fn test_report_collection_copy_clone() {
    assert_clone::<ReportCollection>();
    assert!(!(&Probe::<ReportCollection>(PhantomData)).is_copy());
    assert!((&Probe::<u8>(PhantomData)).is_copy());
}
