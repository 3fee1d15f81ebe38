use fuse_storage::match_seq::{ConflictSeq, MatchSeq, MatchSeqExt, PbSeqV, SeqV};

#[test]
fn test_match_seq_match_seq_value() {
    assert_eq!(MatchSeq::GE(0).match_seq(&Some(SeqV::new(0, 1))), Ok(()));
    assert_eq!(MatchSeq::GE(0).match_seq(&Some(SeqV::new(1, 1))), Ok(()));

    //

    assert_eq!(
        MatchSeq::Exact(3).match_seq(&None::<SeqV>),
        Err(ConflictSeq::NotMatch {
            want: MatchSeq::Exact(3),
            got: 0
        })
    );
    assert_eq!(
        MatchSeq::Exact(3).match_seq(&Some(SeqV::new(0, 1))),
        Err(ConflictSeq::NotMatch {
            want: MatchSeq::Exact(3),
            got: 0
        })
    );
    assert_eq!(
        MatchSeq::Exact(3).match_seq(&Some(SeqV::new(2, 1))),
        Err(ConflictSeq::NotMatch {
            want: MatchSeq::Exact(3),
            got: 2
        })
    );
    assert_eq!(MatchSeq::Exact(3).match_seq(&Some(SeqV::new(3, 1))), Ok(()));
    assert_eq!(
        MatchSeq::Exact(3).match_seq(&Some(SeqV::new(4, 1))),
        Err(ConflictSeq::NotMatch {
            want: MatchSeq::Exact(3),
            got: 4
        })
    );

    //

    assert_eq!(
        MatchSeq::GE(3).match_seq(&None::<SeqV>),
        Err(ConflictSeq::NotMatch {
            want: MatchSeq::GE(3),
            got: 0
        })
    );
    assert_eq!(
        MatchSeq::GE(3).match_seq(&Some(SeqV::new(0, 1))),
        Err(ConflictSeq::NotMatch {
            want: MatchSeq::GE(3),
            got: 0
        })
    );
    assert_eq!(
        MatchSeq::GE(3).match_seq(&Some(SeqV::new(2, 1))),
        Err(ConflictSeq::NotMatch {
            want: MatchSeq::GE(3),
            got: 2
        })
    );
    assert_eq!(MatchSeq::GE(3).match_seq(&Some(SeqV::new(3, 1))), Ok(()));
    assert_eq!(MatchSeq::GE(3).match_seq(&Some(SeqV::new(4, 1))), Ok(()));
}

#[test]
fn test_match_seq_display() {
    assert_eq!("== 3", MatchSeq::Exact(3).to_string());
    assert_eq!(">= 3", MatchSeq::GE(3).to_string());
}

#[test]
fn match_seq_any_display_and_plain_numbers() {
    assert_eq!("is any value", MatchSeq::Any.to_string());
    assert_eq!(">= 18446744073709551615", MatchSeq::GE(u64::MAX).to_string());
    assert_eq!(MatchSeq::Any.match_seq(7u64), Ok(()));
    assert_eq!(
        MatchSeq::Exact(1).match_seq(&SeqV::new(2, 0u8)),
        Err(ConflictSeq::NotMatch {
            want: MatchSeq::Exact(1),
            got: 2
        })
    );
    let wire = Some(PbSeqV {
        seq: 5,
        data: vec![1, 2],
    });
    assert_eq!(MatchSeq::GE(5).match_seq(&wire), Ok(()));
    assert_eq!(
        MatchSeq::GE(6).match_seq(&None::<PbSeqV>),
        Err(ConflictSeq::NotMatch {
            want: MatchSeq::GE(6),
            got: 0
        })
    );
}
