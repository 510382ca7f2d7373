use binserde::containers::{read_items, read_map, read_set, write_map, write_set};
use binserde::de::{read_len, read_signed, read_str, read_unsigned};
use binserde::ser::{write_len, write_signed, write_str, write_unsigned};
use binserde::text::{decode_str, encode_str};
use binserde::try_iter::TryIter;
use binserde::{
    deserialize, deserialize_from, deserialize_in_place, deserialize_with, deserialize_with_from,
    serialize, serialize_into, serialize_with, serialize_with_into, BinDeserialize,
    BinDeserializerBase, BinSerialize, BinSerializer, BinSerializerBase, DedupContext, Error, Mode,
    PrescanSerializer, Source,
};

fn modes() -> [Mode; 4] {
    [
        Mode::default(),
        Mode::dedup(),
        Mode::dedup().with_fixed_size_use_varint(true),
        Mode::default().with_fixed_size_use_varint(true),
    ]
}

fn round_trips<T: BinSerialize + BinDeserialize + PartialEq + std::fmt::Debug>(value: T) {
    for mode in modes() {
        let bytes = serialize_with(&value, mode).unwrap();
        let back: T = deserialize_with(&bytes, mode).unwrap();
        assert_eq!(back, value);
    }
}

#[test]
fn mode_values() {
    assert_eq!(
        Mode::default(),
        Mode {
            use_dedup: false,
            fixed_size_use_varint: false
        }
    );
    assert_eq!(
        Mode::dedup(),
        Mode {
            use_dedup: true,
            fixed_size_use_varint: false
        }
    );
    assert_eq!(
        Mode::dedup().with_fixed_size_use_varint(true),
        Mode {
            use_dedup: true,
            fixed_size_use_varint: true
        }
    );
    assert_eq!(Mode::dedup().with_dedup(false), Mode::default());
}

#[test]
fn scalars_round_trip_in_every_mode() {
    round_trips(true);
    round_trips(false);
    for v in [0u8, 1, 127, 128, 255] {
        round_trips(v);
    }
    for v in [0i8, 1, -1, 127, -128] {
        round_trips(v);
    }
    for v in [0u16, 1, 255, 256, u16::MAX] {
        round_trips(v);
    }
    for v in [0u32, 1, 65536, u32::MAX] {
        round_trips(v);
    }
    for v in [0u64, 1, 1 << 40, u64::MAX] {
        round_trips(v);
    }
    for v in [0usize, 1, 12415165, usize::MAX] {
        round_trips(v);
    }
    for v in [0i16, 1, -1, -3, -35, i16::MAX, i16::MIN] {
        round_trips(v);
    }
    for v in [0i32, 4, -4, 1992323, i32::MAX, i32::MIN] {
        round_trips(v);
    }
    for v in [0i64, 23456788765432, -23456788765432, i64::MAX, i64::MIN] {
        round_trips(v);
    }
    for v in [0isize, 5, -5, isize::MAX, isize::MIN] {
        round_trips(v);
    }
}

#[test]
fn containers_round_trip_in_every_mode() {
    round_trips(String::new());
    round_trips("Some Text".to_string());
    round_trips("\u{e9}\u{1F600} mixed".to_string());
    round_trips(Some(12415165usize));
    round_trips(None::<usize>);
    round_trips(Some("text".to_string()));
    round_trips(Vec::<u32>::new());
    round_trips(vec![1u32, 2, 3, u32::MAX]);
    round_trips(vec!["a".to_string(), "b".to_string(), "a".to_string()]);
    round_trips(vec![vec![1i16, -1], vec![], vec![300]]);
    round_trips(("key".to_string(), 7u64));
    round_trips(vec![("a".to_string(), vec!["a".to_string()]), ("b".to_string(), vec![])]);
    round_trips(Box::new(17i32));
    round_trips(vec![Some(Box::new("x".to_string())), None]);
    round_trips((("x".to_string(), "x".to_string()), (true, -9i8)));
}

#[test]
fn fixed_width_integers_default_to_little_endian() {
    let mode = Mode::default();
    assert_eq!(serialize_with(&0x1234u16, mode).unwrap(), vec![0x34, 0x12]);
    assert_eq!(
        serialize_with(&0x01020304u32, mode).unwrap(),
        vec![4, 3, 2, 1]
    );
    assert_eq!(serialize_with(&u64::MAX, mode).unwrap(), vec![0xFF; 8]);
    assert_eq!(
        serialize_with(&5usize, mode).unwrap(),
        vec![5, 0, 0, 0, 0, 0, 0, 0]
    );
    assert_eq!(serialize_with(&-1i32, mode).unwrap(), vec![0xFF; 4]);
    assert_eq!(serialize_with(&-3i16, mode).unwrap(), vec![0xFD, 0xFF]);
    assert_eq!(
        serialize_with(&i64::MIN, mode).unwrap(),
        vec![0, 0, 0, 0, 0, 0, 0, 0x80]
    );
    assert_eq!(serialize_with(&-2isize, mode).unwrap(), {
        let mut v = vec![0xFF; 8];
        v[0] = 0xFE;
        v
    });
}

#[test]
fn fixed_width_integers_as_groups() {
    let mode = Mode::default().with_fixed_size_use_varint(true);
    assert_eq!(serialize_with(&0x1234u16, mode).unwrap(), vec![0xB4, 0x24]);
    assert_eq!(serialize_with(&0u64, mode).unwrap(), vec![0]);
    assert_eq!(serialize_with(&300u32, mode).unwrap(), vec![0xAC, 0x02]);
    assert_eq!(serialize_with(&-1i32, mode).unwrap(), vec![0x01]);
    assert_eq!(serialize_with(&1i64, mode).unwrap(), vec![0x02]);
    assert_eq!(serialize_with(&-35i16, mode).unwrap(), vec![0x45]);
    assert_eq!(serialize_with(&5usize, mode).unwrap(), vec![5]);
}

#[test]
fn single_bytes_follow_the_mode_and_booleans_do_not() {
    for mode in modes() {
        let table: Vec<u8> = if mode.use_dedup { vec![0] } else { vec![] };
        let with = |payload: &[u8]| {
            let mut v = table.clone();
            v.extend_from_slice(payload);
            v
        };
        if mode.fixed_size_use_varint {
            assert_eq!(serialize_with(&200u8, mode).unwrap(), with(&[0xC8, 0x01]));
            assert_eq!(serialize_with(&100u8, mode).unwrap(), with(&[100]));
            assert_eq!(serialize_with(&-1i8, mode).unwrap(), with(&[0x01]));
            assert_eq!(serialize_with(&-128i8, mode).unwrap(), with(&[0xFF, 0x01]));
        } else {
            assert_eq!(serialize_with(&200u8, mode).unwrap(), with(&[200]));
            assert_eq!(serialize_with(&100u8, mode).unwrap(), with(&[100]));
            assert_eq!(serialize_with(&-1i8, mode).unwrap(), with(&[0xFF]));
            assert_eq!(serialize_with(&-128i8, mode).unwrap(), with(&[0x80]));
        }
        assert_eq!(serialize_with(&true, mode).unwrap(), with(&[0xFF]));
        assert_eq!(serialize_with(&false, mode).unwrap(), with(&[0x00]));
    }
}

#[test]
fn groups_too_large_for_a_single_byte_overflow() {
    let mode = Mode::default().with_fixed_size_use_varint(true);
    assert_eq!(deserialize_with::<u8>(&[0xFF, 0x01], mode), Ok(255));
    assert_eq!(
        deserialize_with::<u8>(&[0x80, 0x02], mode),
        Err(Error::TryFromInt)
    );
    assert_eq!(deserialize_with::<i8>(&[0xFF, 0x01], mode), Ok(-128));
    assert_eq!(
        deserialize_with::<i8>(&[0x80, 0x02], mode),
        Err(Error::TryFromInt)
    );
}

#[test]
fn any_nonzero_byte_reads_as_true() {
    assert_eq!(deserialize::<bool>(&[0]), Ok(false));
    assert_eq!(deserialize::<bool>(&[1]), Ok(true));
    assert_eq!(deserialize::<bool>(&[0xFF]), Ok(true));
    assert_eq!(deserialize::<bool>(&[]), Err(Error::Io));
}

#[test]
fn groups_too_large_for_the_width_overflow() {
    let mode = Mode::default().with_fixed_size_use_varint(true);
    assert_eq!(
        deserialize_with::<u16>(&[0xF0, 0xA2, 0x04], mode),
        Err(Error::TryFromInt)
    );
    assert_eq!(deserialize_with::<u32>(&[0xF0, 0xA2, 0x04], mode), Ok(70000));
    let too_wide = serialize_with(&(1u64 << 32), mode).unwrap();
    assert_eq!(
        deserialize_with::<u32>(&too_wide, mode),
        Err(Error::TryFromInt)
    );
    let below = serialize_with(&-32769i32, mode).unwrap();
    assert_eq!(deserialize_with::<i16>(&below, mode), Err(Error::TryFromInt));
    let fits = serialize_with(&-32768i32, mode).unwrap();
    assert_eq!(deserialize_with::<i16>(&fits, mode), Ok(i16::MIN));
}

#[test]
fn input_cut_short_is_io() {
    assert_eq!(deserialize::<u8>(&[]), Err(Error::Io));
    assert_eq!(deserialize::<i8>(&[]), Err(Error::Io));
    assert_eq!(deserialize::<u32>(&[1, 2, 3]), Err(Error::Io));
    assert_eq!(deserialize::<i64>(&[1, 2, 3, 4, 5, 6, 7]), Err(Error::Io));
    assert_eq!(deserialize::<String>(&[3, b'a']), Err(Error::Io));
    assert_eq!(deserialize::<Vec<u8>>(&[3, 1, 2]), Err(Error::Io));
    assert_eq!(deserialize::<Option<u16>>(&[0xFF, 1]), Err(Error::Io));
    assert_eq!(deserialize::<(u8, u8)>(&[1]), Err(Error::Io));
    assert_eq!(
        deserialize_with::<String>(&[], Mode::dedup()),
        Err(Error::Io)
    );
}

#[test]
fn strings_inline_and_indexed() {
    assert_eq!(serialize(&"abc".to_string()).unwrap(), vec![3, 97, 98, 99]);
    assert_eq!(serialize(&String::new()).unwrap(), vec![0]);
    assert_eq!(
        serialize_with(&"abc".to_string(), Mode::dedup()).unwrap(),
        vec![1, 3, 97, 98, 99, 0]
    );
    let words = vec!["a".to_string(), "b".to_string(), "a".to_string()];
    assert_eq!(
        serialize_with(&words, Mode::dedup()).unwrap(),
        vec![2, 1, b'a', 1, b'b', 3, 0, 1, 0]
    );
    assert_eq!(
        serialize(&words).unwrap(),
        vec![3, 1, b'a', 1, b'b', 1, b'a']
    );
}

#[test]
fn string_of_128_bytes_has_a_two_group_length() {
    let text = "z".repeat(128);
    let bytes = serialize(&text).unwrap();
    assert_eq!(bytes.len(), 130);
    assert_eq!(&bytes[..2], &[0x80, 0x01]);
    assert_eq!(deserialize::<String>(&bytes), Ok(text));
}

#[test]
fn bytes_that_are_not_utf8_are_rejected() {
    assert_eq!(
        deserialize::<String>(&[2, 0xC3, 0x28]),
        Err(Error::InvalidUtf8(vec![0xC3, 0x28]))
    );
    assert_eq!(
        deserialize::<String>(&[1, 0xFF, 7]),
        Err(Error::InvalidUtf8(vec![0xFF]))
    );
    let bytes = [2, 0xC3, 0xA9];
    let mut src = Source::new(&bytes);
    assert_eq!(decode_str(&mut src), Ok("\u{e9}".to_string()));
}

#[test]
fn inline_string_codec() {
    let mut out = vec![1];
    encode_str(&mut out, "hi");
    assert_eq!(out, vec![1, 2, b'h', b'i']);
    let mut src = Source::new(&out[1..]);
    assert_eq!(decode_str(&mut src), Ok("hi".to_string()));
    assert_eq!(src.available(), 0);
}

#[test]
fn index_outside_the_table_is_out_of_range() {
    let mode = Mode::dedup();
    assert_eq!(
        deserialize_with::<String>(&[0, 5], mode),
        Err(Error::StrOutOfRange(5))
    );
    assert_eq!(
        deserialize_with::<String>(&[1, 1, b'a', 1], mode),
        Err(Error::StrOutOfRange(1))
    );
    assert_eq!(
        deserialize_with::<String>(&[1, 1, b'a', 0], mode),
        Ok("a".to_string())
    );
    assert_eq!(
        deserialize_with::<Vec<String>>(&[2, 1, b'a', 1, b'b', 3, 0, 1, 2], mode),
        Err(Error::StrOutOfRange(2))
    );
}

#[test]
fn every_index_written_is_inside_the_table() {
    let words: Vec<String> = ["a", "b", "a", "c", "b", "d", "a"]
        .into_iter()
        .map(|s| s.to_string())
        .collect();
    let bytes = serialize_with(&words, Mode::dedup()).unwrap();
    assert_eq!(
        bytes,
        vec![4, 1, b'a', 1, b'b', 1, b'c', 1, b'd', 7, 0, 1, 0, 2, 1, 3, 0]
    );
    let count = bytes[0];
    for index in &bytes[10..] {
        assert!(*index < count);
    }
}

#[test]
fn options_and_pairs() {
    assert_eq!(serialize(&Some(7u8)).unwrap(), vec![0xFF, 7]);
    assert_eq!(serialize(&None::<u8>).unwrap(), vec![0]);
    assert_eq!(serialize(&(1u8, true)).unwrap(), vec![1, 0xFF]);
    assert_eq!(deserialize::<Option<u8>>(&[0x01, 9]), Ok(Some(9)));
    assert_eq!(deserialize::<Option<u8>>(&[0x00, 9]), Ok(None));
    assert_eq!(deserialize::<(u8, bool)>(&[3, 0]), Ok((3, false)));
}

#[test]
fn a_map_is_the_sequence_of_its_pairs() {
    let map = vec![("k".to_string(), 1u8), ("l".to_string(), 2u8)];
    assert_eq!(
        serialize(&map).unwrap(),
        vec![2, 1, b'k', 1, 1, b'l', 2]
    );
}

#[test]
fn maps_and_sets_through_their_operations() {
    let map: std::collections::BTreeMap<String, u16> =
        [("k".to_string(), 1u16), ("l".to_string(), 0x0203)].into_iter().collect();
    let set: std::collections::BTreeSet<String> =
        ["k".to_string(), "m".to_string()].into_iter().collect();
    let entries: Vec<(&String, &u16)> = map.iter().collect();
    let keys: Vec<&String> = set.iter().collect();

    let mut s = BinSerializerBase::new(Vec::new()).with_mode(Mode::dedup());
    write_map(&mut s, &entries).unwrap();
    write_set(&mut s, &keys).unwrap();
    let bytes = s.into_inner();
    assert_eq!(bytes, vec![2, 0, 1, 0, 1, 3, 2, 2, 0, 2]);

    let mut table = DedupContext::new();
    for text in ["k", "l", "m"] {
        table.intern(text);
    }
    let mut d = BinDeserializerBase::new(Source::new(&bytes), &table).with_mode(Mode::dedup());
    let read: Vec<(String, u16)> = read_map(&mut d).unwrap();
    assert_eq!(read.into_iter().collect::<std::collections::BTreeMap<_, _>>(), map);
    let read: Vec<String> = read_set(&mut d).unwrap();
    assert_eq!(read.into_iter().collect::<std::collections::BTreeSet<_>>(), set);
    assert_eq!(d.into_inner().available(), 0);
    let mut d = BinDeserializerBase::new(Source::new(&[2, 1, b'k']), &table);
    assert_eq!(read_map::<String, u16>(&mut d), Err(Error::Io));
}

#[test]
fn dedup_is_shorter_for_a_repeated_string() {
    let text = "x".repeat(20);
    let pair = (text.clone(), text.clone());
    let with = serialize_with(&pair, Mode::dedup()).unwrap();
    let without = serialize_with(&pair, Mode::default()).unwrap();
    let mut expected = vec![1u8, 20];
    expected.extend_from_slice(text.as_bytes());
    expected.extend_from_slice(&[0, 0]);
    assert_eq!(with, expected);
    assert_eq!(with.len(), 24);
    assert_eq!(without.len(), 42);
    assert!(with.len() < without.len());

    let four = ("abcd".to_string(), "abcd".to_string());
    assert!(
        serialize_with(&four, Mode::dedup()).unwrap().len()
            < serialize_with(&four, Mode::default()).unwrap().len()
    );
}

#[test]
fn dedup_is_shorter_when_one_string_occurs_twice_among_other_data() {
    let value = (
        (7u32, vec![Some("abcd".to_string()), None, Some("abcd".to_string())]),
        (true, vec![1u16, 2, 3]),
    );
    let with = serialize_with(&value, Mode::dedup()).unwrap();
    let without = serialize_with(&value, Mode::default()).unwrap();
    assert_eq!(with.len() + 2, without.len());
    let many = vec!["abcd".to_string(); 10];
    assert_eq!(serialize_with(&many, Mode::dedup()).unwrap().len(), 1 + 5 + 1 + 10);
    assert_eq!(serialize_with(&many, Mode::default()).unwrap().len(), 1 + 50);
}

#[test]
fn serialize_into_appends_the_stream() {
    let mut pipe = vec![0xAA, 0xBB];
    serialize_into(&mut pipe, &"abc").unwrap();
    assert_eq!(pipe, vec![0xAA, 0xBB, 3, 97, 98, 99]);
    serialize_with_into(&mut pipe, &"abc", Mode::dedup()).unwrap();
    assert_eq!(
        pipe,
        vec![0xAA, 0xBB, 3, 97, 98, 99, 1, 3, 97, 98, 99, 0]
    );
}

#[test]
fn deserialize_from_leaves_the_source_behind_the_value() {
    let bytes = [3, 97, 98, 99, 0x34, 0x12, 1, 1, b'q', 0, 9];
    let mut pipe = Source::new(&bytes);
    assert_eq!(deserialize_from::<String>(&mut pipe), Ok("abc".to_string()));
    assert_eq!(pipe.available(), 7);
    assert_eq!(deserialize_from::<u16>(&mut pipe), Ok(0x1234));
    assert_eq!(pipe.available(), 5);
    assert_eq!(
        deserialize_with_from::<String>(&mut pipe, Mode::dedup()),
        Ok("q".to_string())
    );
    assert_eq!(pipe.available(), 1);
    assert_eq!(pipe.read_byte(), Ok(9));
    assert_eq!(pipe.read_byte(), Err(Error::Io));
}

#[test]
fn deserialize_in_place_keeps_the_storage() {
    let mut target: Vec<u8> = Vec::with_capacity(100);
    target.push(9);
    let bytes = [3, 1, 2, 3, 0xEE];
    let mut pipe = Source::new(&bytes);
    deserialize_in_place(&mut target, &mut pipe, Mode::default()).unwrap();
    assert_eq!(target, vec![1, 2, 3]);
    assert!(target.capacity() >= 100);
    assert_eq!(pipe.available(), 1);

    let mut text = "old".to_string();
    let bytes = [1, 3, b'n', b'e', b'w', 0];
    let mut pipe = Source::new(&bytes);
    deserialize_in_place(&mut text, &mut pipe, Mode::dedup()).unwrap();
    assert_eq!(text, "new");

    let mut number = 5u16;
    let mut pipe = Source::new(&[1]);
    assert_eq!(
        deserialize_in_place(&mut number, &mut pipe, Mode::default()),
        Err(Error::Io)
    );
}

#[test]
fn deserialize_in_place_keeps_the_target_when_the_table_fails() {
    let mut target = String::from("keep");
    let bytes = [0x02u8, 0x01, 0x61];
    let mut pipe = Source::new(&bytes);
    assert_eq!(
        deserialize_in_place(&mut target, &mut pipe, Mode::dedup()),
        Err(Error::Io)
    );
    assert_eq!(target, "keep");

    let mut numbers = vec![1u8, 2, 3];
    let bytes = [1, 2, 0xC3, 0x28, 0];
    let mut pipe = Source::new(&bytes);
    assert_eq!(
        deserialize_in_place(&mut numbers, &mut pipe, Mode::dedup()),
        Err(Error::InvalidUtf8(vec![0xC3, 0x28]))
    );
    assert_eq!(numbers, vec![1, 2, 3]);
}

#[test]
fn try_iter_stops_at_the_first_failure() {
    let bytes = [1, 0, 2, 0, 3];
    let context = DedupContext::new();
    let mut d = BinDeserializerBase::new(Source::new(&bytes), &context);
    let mut items = TryIter::new(3);
    assert_eq!(items.len(), 3);
    assert_eq!(items.next::<u16>(&mut d), Some(Ok(1)));
    assert_eq!(items.len(), 2);
    assert_eq!(items.next::<u16>(&mut d), Some(Ok(2)));
    assert_eq!(items.len(), 1);
    assert_eq!(items.next::<u16>(&mut d), Some(Err(Error::Io)));
    assert_eq!(items.len(), 0);
    assert_eq!(items.next::<u16>(&mut d), None);
}

#[test]
fn try_iter_ends_after_the_count() {
    let bytes = [7, 8, 9];
    let context = DedupContext::new();
    let mut d = BinDeserializerBase::new(Source::new(&bytes), &context);
    let mut items = TryIter::new(2);
    assert_eq!(items.next::<u8>(&mut d), Some(Ok(7)));
    assert_eq!(items.next::<u8>(&mut d), Some(Ok(8)));
    assert_eq!(items.next::<u8>(&mut d), None);
    assert_eq!(d.into_inner().available(), 1);
    assert_eq!(TryIter::new(0).next::<u8>(&mut BinDeserializerBase::new(Source::new(&bytes), &context)), None);
}

#[test]
fn read_items_appends_to_the_vector() {
    let bytes = [1, 2, 3, 4];
    let context = DedupContext::new();
    let mut d = BinDeserializerBase::new(Source::new(&bytes), &context);
    let mut out = vec![0u8];
    read_items(&mut d, 3, &mut out).unwrap();
    assert_eq!(out, vec![0, 1, 2, 3]);
    assert_eq!(read_items(&mut d, 2, &mut out), Err(Error::Io));
}

#[test]
fn operations_on_a_serializer() {
    let mut s = BinSerializerBase::new(vec![0x11]).with_mode(Mode::dedup());
    assert_eq!(s.mode(), Mode::dedup());
    write_len(&mut s, 300);
    write_unsigned(&mut s, 0xABCD, 2);
    write_signed(&mut s, -2, 4);
    write_str(&mut s, "p");
    write_str(&mut s, "q");
    write_str(&mut s, "p");
    s.set_mode(Mode::default().with_fixed_size_use_varint(true));
    write_str(&mut s, "p");
    write_unsigned(&mut s, 0xABCD, 2);
    write_signed(&mut s, -2, 4);
    assert_eq!(
        s.into_inner(),
        vec![
            0x11, 0xAC, 0x02, 0xCD, 0xAB, 0xFE, 0xFF, 0xFF, 0xFF, 0, 1, 0, 1, b'p', 0xCD, 0xD7,
            0x02, 0x03
        ]
    );
}

#[test]
fn operations_on_a_deserializer() {
    let mut table = DedupContext::new();
    table.intern("p");
    table.intern("q");
    let bytes = [0xAC, 0x02, 0xCD, 0xAB, 0xFE, 0xFF, 0xFF, 0xFF, 1, 0, 1, b'r'];
    let mut d = BinDeserializerBase::new(Source::new(&bytes), &table).with_mode(Mode::dedup());
    assert_eq!(d.mode(), Mode::dedup());
    assert_eq!(read_len(&mut d), Ok(300));
    assert_eq!(read_unsigned(&mut d, 2), Ok(0xABCD));
    assert_eq!(read_signed(&mut d, 4), Ok(-2));
    assert_eq!(read_str(&mut d), Ok("q".to_string()));
    assert_eq!(read_str(&mut d), Ok("p".to_string()));
    d.set_mode(Mode::default());
    assert_eq!(read_str(&mut d), Ok("r".to_string()));
    assert_eq!(d.read_byte(), Err(Error::Io));
}

#[test]
fn prescan_gathers_the_strings_and_writes_nothing() {
    let mut ps = PrescanSerializer::new().with_mode(Mode::dedup());
    let words = vec!["b".to_string(), "a".to_string(), "b".to_string()];
    words.serialize(&mut ps).unwrap();
    7u64.serialize(&mut ps).unwrap();
    assert_eq!(ps.dedup().len(), 2);
    assert_eq!(ps.dedup().lookup(0), Ok("b"));
    assert_eq!(ps.dedup().lookup(1), Ok("a"));
    assert_eq!(ps.intern("a"), 1);
    assert_eq!(ps.intern("new"), 2);
}

#[test]
fn prescan_without_dedup_gathers_nothing() {
    let mut ps = PrescanSerializer::new();
    assert_eq!(ps.mode(), Mode::default());
    "text".serialize(&mut ps).unwrap();
    assert_eq!(ps.dedup().len(), 0);
}

#[test]
fn custom_error_carries_its_message() {
    assert_eq!(Error::custom("boom"), Error::Custom("boom".to_string()));
    assert_eq!(Error::custom(42), Error::Custom("42".to_string()));
    assert_eq!(Error::message("boom"), Error::Custom("boom".to_string()));
}
