use onethu_harness::json::{Arr, Json, Num, Rec};
use onethu_harness::usage::{ApiUsage, Usage};

fn u(prompt: u64, completion: u64, calls: u64) -> Usage {
    Usage { prompt, completion, calls }
}

#[test]
fn usages_add_up() {
    let mut a = u(1, 2, 3);
    a.add(&u(10, 20, 30));
    assert_eq!(a, u(11, 22, 33));
    let mut b = u(10, 20, 30);
    b.add(&u(1, 2, 3));
    assert_eq!(a, b);
    assert_eq!(Usage::default(), u(0, 0, 0));
    assert!(u(u64::MAX, 0, 0).takes(&u(0, 5, 5)));
    assert!(!u(u64::MAX, 0, 0).takes(&u(1, 0, 0)));
}

#[test]
fn reported_usage_is_read() {
    let v = Rec::new().pos("prompt_tokens", 7).pos("completion_tokens", 3).pos("x", 1).done();
    let r = ApiUsage::from_json(&v).unwrap();
    assert_eq!((r.prompt_tokens, r.completion_tokens), (7, 3));
    let r = ApiUsage::from_json(&Rec::new().done()).unwrap();
    assert_eq!((r.prompt_tokens, r.completion_tokens), (0, 0));
    assert!(ApiUsage::from_json(&Rec::new().whole("prompt_tokens", -1).done()).is_none());
    assert!(ApiUsage::from_json(&Json::Null).is_none());
    let r = ApiUsage::from_json(&Arr::new().whole(4).done()).unwrap();
    assert_eq!((r.prompt_tokens, r.completion_tokens), (4, 0));
    let r = ApiUsage::from_json(&Json::Num(Num::Pos(1)));
    assert!(r.is_none());
    let d = ApiUsage::default();
    assert_eq!(d.prompt_tokens + d.completion_tokens, 0);
}
