use stitch_pty::transfer::Outgoing;

#[test]
fn partial_writes_add_up() {
    let data: Vec<u8> = (0..100).collect();
    for step in 1..=7 {
        let mut out = Outgoing::new(data.clone());
        let mut sink: Vec<u8> = Vec::new();
        while !out.is_done() {
            let n = out.rest().len().min(step);
            sink.extend_from_slice(&out.rest()[..n]);
            out.advance(n);
        }
        assert_eq!(sink, data);
    }
}

#[test]
fn a_write_may_take_nothing() {
    let mut out = Outgoing::new(vec![1, 2]);
    out.advance(0);
    assert_eq!(out.rest(), &[1, 2]);
    out.advance(2);
    assert!(out.is_done());
    assert!(Outgoing::new(Vec::new()).is_done());
}
