use std::slice::IterMut;

use ragu::perhaps::{
    Always, Empty, Perhaps, PerhapsCast, PerhapsKind, PerhapsMap, PerhapsView, PerhapsViewMut,
    Rebind,
};

type Wrap<K, T> = <K as Rebind<T>>::Out;

type InterfaceWrap<I, T> = Wrap<<I as Interface>::PerhapsKind, T>;

trait Interface {
    type PerhapsKind: PerhapsKind;

    fn op(f: impl FnOnce() -> usize);

    fn just<R>(f: impl FnOnce() -> R) -> InterfaceWrap<Self, R>
    where
        Self::PerhapsKind: Rebind<R>,
    {
        <Self::PerhapsKind as Rebind<R>>::perhaps_just(f)
    }

    fn with<R, E>(f: impl FnOnce() -> Result<R, E>) -> Result<InterfaceWrap<Self, R>, E>
    where
        Self::PerhapsKind: Rebind<R>,
    {
        <Self::PerhapsKind as Rebind<R>>::perhaps_with(f)
    }
}

fn my_operation<I: Interface, E>(
    value: InterfaceWrap<I, usize>,
) -> Result<InterfaceWrap<I, usize>, E>
where
    I::PerhapsKind: Rebind<usize> + Rebind<()> + Rebind<Vec<i32>>,
    for<'a> I::PerhapsKind:
        Rebind<&'a mut usize> + Rebind<&'a mut Vec<i32>> + Rebind<IterMut<'a, i32>>,
    for<'a, 'b> I::PerhapsKind: Rebind<&'b mut IterMut<'a, i32>>,
    InterfaceWrap<I, usize>: PerhapsMap<usize, usize>,
    InterfaceWrap<I, usize>: PerhapsViewMut<usize>,
    for<'a> InterfaceWrap<I, &'a mut usize>: PerhapsMap<&'a mut usize, ()>,
    InterfaceWrap<I, Vec<i32>>: PerhapsViewMut<Vec<i32>>,
    for<'a> InterfaceWrap<I, &'a mut Vec<i32>>: PerhapsMap<&'a mut Vec<i32>, IterMut<'a, i32>>,
    for<'a> InterfaceWrap<I, IterMut<'a, i32>>: PerhapsViewMut<IterMut<'a, i32>>,
{
    let my_value = 100usize;
    let just_value: InterfaceWrap<I, usize> = I::just(|| my_value + 10).map(|v| v * 2);
    let err_value: InterfaceWrap<I, usize> = I::with(|| Ok(10))?;

    let x: InterfaceWrap<I, usize> = value
        .and_then(|v| just_value.map(|j| v + j))
        .and_then(|v| err_value.map(|e| v + e));

    let mut ninenine: InterfaceWrap<I, usize> = I::just(|| 99999);
    let ninenine_cloned = Perhaps::clone(&ninenine);

    I::op(|| ninenine_cloned.take());

    I::just(|| {
        assert_eq!(ninenine.snag(), &99999);
    });

    ninenine.view_mut().map(|v| *v = 1181818);

    I::just(|| {
        assert_eq!(ninenine.snag(), &1181818);
    });

    I::just(|| {
        let a = ninenine.view_mut().take();
        *a = 1181819;
    });

    I::just(|| {
        assert_eq!(ninenine.snag(), &1181819);
    });

    let mut a: InterfaceWrap<I, Vec<i32>> = I::just(|| vec![1, 2, 3]);
    let mut b = a.view_mut().map(|v| v.iter_mut());

    I::just(|| {
        for i in 1..4 {
            assert_eq!(*b.view_mut().take().next().unwrap(), i);
        }
    });

    Ok(x)
}

#[test]
fn test_always() {
    struct AlwaysInterface;
    impl Interface for AlwaysInterface {
        type PerhapsKind = Always<()>;

        fn op(f: impl FnOnce() -> usize) {
            assert_eq!(f(), 99999);
        }
    }

    assert_eq!(
        my_operation::<AlwaysInterface, ()>(Always::<()>::just(|| 42))
            .unwrap()
            .take(),
        272
    );
}

#[test]
fn test_empty() {
    struct EmptyInterface;
    impl Interface for EmptyInterface {
        type PerhapsKind = Empty;

        fn op(_: impl FnOnce() -> usize) {}
    }

    my_operation::<EmptyInterface, ()>(Empty).unwrap();
}

#[test]
fn just_runs_the_closure_only_when_present() {
    let mut ran = 0;
    let a = Always::<()>::just(|| {
        ran += 1;
        7u32
    });
    assert_eq!(a.take(), 7);
    assert_eq!(ran, 1);

    let mut ran_empty = 0;
    let _e: Empty = Empty::just(|| {
        ran_empty += 1;
        7u32
    });
    assert_eq!(ran_empty, 0);
}

#[test]
fn with_hands_on_the_error_only_when_present() {
    let r: Result<Always<u32>, &str> = Always::<()>::with(|| Err("no"));
    assert!(matches!(r, Err("no")));
    let r: Result<Always<u32>, &str> = Always::<()>::with(|| Ok(3));
    assert_eq!(r.unwrap().take(), 3);
    let r: Result<Empty, &str> = Empty::with::<u32, &str, _>(|| Err("no"));
    assert!(r.is_ok());
    let r: Result<Empty, &str> = <Empty as Rebind<u32>>::perhaps_with(|| Err("no"));
    assert!(r.is_ok());
    let r: Result<Always<u32>, &str> = <Always<()> as Rebind<u32>>::perhaps_with(|| Err("no"));
    assert!(r.is_err());
}

#[test]
fn map_and_then_into_view() {
    let a = Always::<()>::just(|| 20u8);
    let b: Always<u16> = PerhapsMap::<u8, u16>::into(a);
    let c: Always<u16> = b.map(|v| v + 1);
    assert_eq!(*c.view().take(), 21);
    let d: Always<u32> = c.and_then(|v| Always::<()>::just(|| u32::from(v) * 2));
    assert_eq!(d.take(), 42);

    let e: Empty = PerhapsMap::<u8, u16>::map(Empty, |v| u16::from(v) + 1);
    let _f: Empty = PerhapsMap::<u16, u32>::and_then(e, |_| Empty);
    let _g: Empty = <Empty as Rebind<u8>>::empty();
}

#[test]
fn cast_splits_a_pair() {
    let p = Always::<()>::just(|| (3u8, 4u16));
    let (x, y) = p.cast::<(u8, u16)>();
    assert_eq!(x.take(), 3);
    assert_eq!(y.take(), 4);

    let (_x, _y): (Empty, Empty) = Perhaps::<(u8, u16)>::cast::<(u8, u16)>(Empty);
    let (_x, _y): (Empty, Empty) = <(u8, u16) as PerhapsCast<(u8, u16), Empty>>::empty();
}
