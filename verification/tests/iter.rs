use nibble::base::u4;
use nibble::iter::{NibblePairs, Nibbles};
use nibble::u4x2;

fn pairs(bytes: &[u8]) -> Vec<u4x2> {
    bytes.iter().map(|&b| u4x2::from_byte(b)).collect()
}

#[test]
fn pairs_come_from_both_ends() {
    let buf = pairs(&[0x12, 0x34, 0x56, 0x78]);
    let mut iter = NibblePairs::new(&buf);
    assert_eq!(iter.len(), 4);
    assert_eq!(iter.size_hint(), (4, Some(4)));
    assert_eq!(iter.next().map(|p| p.byte()), Some(0x12));
    assert_eq!(iter.next_back().map(|p| p.byte()), Some(0x78));
    assert_eq!(iter.as_slice().len(), 2);
    assert_eq!(iter.as_slice()[0], 0x34);
    assert_eq!(iter.len(), 2);
    assert_eq!(iter.last().map(|p| p.byte()), Some(0x56));
    assert_eq!(iter.count(), 2);
    assert_eq!(iter.nth(1).map(|p| p.byte()), Some(0x56));
    assert_eq!(iter.len(), 0);
    assert!(iter.next().is_none());
    assert!(iter.next_back().is_none());
    assert!(iter.last().is_none());
    let mut iter = NibblePairs::new(&buf);
    assert!(iter.nth(4).is_none());
    assert_eq!(iter.len(), 0);
    let mut iter = NibblePairs::new(&buf);
    assert_eq!(iter.nth(0).map(|p| p.byte()), Some(0x12));
    assert_eq!(iter.len(), 3);
}

#[test]
fn nibbles_meet_in_the_middle() {
    let buf = pairs(&[0x12, 0x34, 0x56]);
    for &(left, right) in &[(true, true), (true, false), (false, true), (false, false)] {
        let all: Vec<u8> = (1..=6u8)
            .skip(if left { 0 } else { 1 })
            .take(6 - usize::from(!left) - usize::from(!right))
            .collect();
        for from_front in 0..=all.len() {
            let mut iter = Nibbles::new(NibblePairs::new(&buf), left, right);
            assert_eq!(iter.len(), all.len());
            let mut front = Vec::new();
            for taken in 0..from_front {
                front.push(iter.next().unwrap().to_lo());
                assert_eq!(iter.len(), all.len() - taken - 1);
                assert_eq!(iter.size_hint(), (iter.len(), Some(iter.len())));
            }
            let mut back = Vec::new();
            while let Some(nib) = iter.next_back() {
                back.push(nib.to_lo());
            }
            back.reverse();
            front.extend(back);
            assert_eq!(front, all);
            assert_eq!(iter.len(), 0);
            assert!(iter.next().is_none());
            assert!(iter.next_back().is_none());
        }
    }
}

#[test]
fn nibbles_of_nothing() {
    let none: Vec<u4x2> = Vec::new();
    for &(left, right) in &[(true, true), (true, false), (false, true), (false, false)] {
        let mut iter = Nibbles::new(NibblePairs::new(&none), left, right);
        assert_eq!(iter.len(), 0);
        assert!(iter.next().is_none());
        assert!(iter.next_back().is_none());
    }
    let one = pairs(&[0x9c]);
    let mut iter = Nibbles::new(NibblePairs::new(&one), false, false);
    assert_eq!(iter.len(), 0);
    assert!(iter.next_back().is_none());
    let mut iter = Nibbles::new(NibblePairs::new(&one), false, true);
    assert_eq!(iter.len(), 1);
    assert_eq!(iter.next_back().map(|n| n.to_lo()), Some(0xc));
    let mut iter = Nibbles::new(NibblePairs::new(&one), true, false);
    assert_eq!(iter.next().map(|n| n.to_lo()), Some(0x9));
    assert!(iter.next().is_none());
}

#[test]
fn pairs_are_searched() {
    let buf = pairs(&[0x12, 0x34, 0x56, 0x34]);
    let mut iter = NibblePairs::new(&buf);
    assert!(iter.all(|p| p.byte() != 0));
    assert_eq!(iter.len(), 0);
    let mut iter = NibblePairs::new(&buf);
    assert!(!iter.all(|p| p.byte() < 0x50));
    assert_eq!(iter.len(), 1);
    let mut iter = NibblePairs::new(&buf);
    assert!(iter.any(|p| p.byte() == 0x34));
    assert_eq!(iter.len(), 2);
    assert!(iter.any(|p| p.byte() == 0x34));
    assert_eq!(iter.len(), 0);
    assert!(!iter.any(|p| p.byte() == 0x34));
    let mut iter = NibblePairs::new(&buf);
    assert_eq!(iter.find(|p| p.hi().to_lo() == 5).map(|p| p.byte()), Some(0x56));
    assert_eq!(iter.len(), 1);
    assert!(iter.find(|p| p.hi().to_lo() == 5).is_none());
    let mut iter = NibblePairs::new(&buf);
    assert_eq!(iter.position(|p| p.byte() == 0x34), Some(1));
    assert_eq!(iter.position(|p| p.byte() == 0x34), Some(1));
    assert_eq!(iter.position(|p| p.byte() == 0x34), None);
    let mut iter = NibblePairs::new(&buf);
    assert_eq!(iter.rposition(|p| p.byte() == 0x34), Some(3));
    assert_eq!(iter.len(), 3);
    assert_eq!(iter.rposition(|p| p.byte() == 0x34), Some(1));
    assert_eq!(iter.len(), 1);
    assert_eq!(iter.rposition(|p| p.byte() == 0x34), None);
    assert_eq!(iter.len(), 0);
    let mut iter = NibblePairs::new(&buf);
    assert_eq!(iter.seek(&|p: &u4x2| p.byte() > 0x20, true).map(|(at, p)| (at, p.byte())), Some((1, 0x34)));
    assert_eq!(iter.seek(&|p: &u4x2| p.byte() > 0x20, false), None);
}
