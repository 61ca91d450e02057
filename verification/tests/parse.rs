use kanji_number_parser::parser::add_scaled;
use kanji_number_parser::{parse, KanjiNumberParseError};
use num_bigint::{BigUint, ToBigUint};

fn decimal(digits: &str) -> BigUint {
    BigUint::parse_bytes(digits.as_bytes(), 10).unwrap()
}

fn ten_to(exponent: u32) -> BigUint {
    BigUint::from(10u32).pow(exponent)
}

#[test]
fn parse_works() {
    assert_eq!(parse(String::from("零")), Ok(0.to_biguint().unwrap()));
    assert_eq!(
        parse(String::from("千百十")),
        Ok(1110.to_biguint().unwrap()) as Result<BigUint, KanjiNumberParseError>
    );
    assert_eq!(
        parse(String::from("一千万")),
        Ok(10000000.to_biguint().unwrap()) as Result<BigUint, KanjiNumberParseError>
    );
    assert_eq!(
        parse(String::from("四千三百二十一")),
        Ok(4321.to_biguint().unwrap()) as Result<BigUint, KanjiNumberParseError>
    );
    assert_eq!(
        parse(String::from("五千三十")),
        Ok(5030.to_biguint().unwrap()) as Result<BigUint, KanjiNumberParseError>
    );
    assert_eq!(
        parse(String::from("一億五千万")),
        Ok(150000000.to_biguint().unwrap()) as Result<BigUint, KanjiNumberParseError>
    );
    assert_eq!(
        parse(String::from("一億五千万")),
        Ok(BigUint::from_radix_be(&vec![1, 50, 0, 0, 0], 100).unwrap())
            as Result<BigUint, KanjiNumberParseError>
    );
    assert_eq!(
        parse(String::from("一兆五千億")),
        Ok(BigUint::from_radix_be(&vec![1, 50, 0, 0, 0, 0, 0], 100).unwrap())
            as Result<BigUint, KanjiNumberParseError>
    );
    assert_eq!(
        parse(String::from("五千六百七十八溝九千十二穣三千四百五十六𥝱七千八百九十垓千二百三十四京五千六百七十八兆九千十二億三千四百五十六万七千八百九十")),
        Ok(BigUint::from_radix_be(&vec![
            56,78, // 32:溝
            90,12, // 28:穣
            34,56, // 24:𥝱
            78,90, // 20:垓
            12,34, // 16:京
            56,78, // 12:兆
            90,12, //  8:億
            34,56, //  4:万
            78,90
            ], 100).unwrap()) as Result<BigUint, KanjiNumberParseError>
    );
    assert_eq!(
        parse(String::from("十二無量大数三千四百五十六不可思議七千八百九十那由他千二百三十四阿僧祇五千六百七十八恒河沙")),
        Ok(BigUint::from_radix_be(&vec![
               12, // 68:無量大数
            34,56, // 64:不可思議
            78,90, // 60:那由他
            12,34, // 56:阿僧祇
            56,78, // 52:恒河沙
             0, 0, // 48:極
             0, 0, // 44:載
             0, 0, // 40:正
             0, 0, // 36:澗
             0, 0, // 32:溝
             0, 0, // 28:穣
             0, 0, // 24:𥝱
             0, 0, // 20:垓
             0, 0, // 16:京
             0, 0, // 12:兆
             0, 0, //  8:億
             0, 0, //  4:万
             0, 0
            ], 100).unwrap()) as Result<BigUint, KanjiNumberParseError>
    );
    assert_eq!(
        parse(String::from("数ではない")),
        Err(KanjiNumberParseError)
    )
}

#[test]
fn empty_text_is_zero() {
    assert_eq!(parse(String::new()), Ok(BigUint::from(0u32)));
}

#[test]
fn zero_digit_is_zero() {
    assert_eq!(parse(String::from("零")), Ok(BigUint::from(0u32)));
}

#[test]
fn every_digit_reads_as_its_value() {
    let digits = ["零", "一", "二", "三", "四", "五", "六", "七", "八", "九"];
    for (value, digit) in digits.iter().enumerate() {
        assert_eq!(parse(String::from(*digit)), Ok(BigUint::from(value)));
    }
}

#[test]
fn positional_composition() {
    assert_eq!(parse(String::from("千百十")), Ok(BigUint::from(1110u32)));
    assert_eq!(parse(String::from("四千三百二十一")), Ok(BigUint::from(4321u32)));
    assert_eq!(parse(String::from("五千三十")), Ok(BigUint::from(5030u32)));
    assert_eq!(parse(String::from("九千九百九十九")), Ok(BigUint::from(9999u32)));
}

#[test]
fn place_character_alone_counts_once() {
    assert_eq!(parse(String::from("十")), Ok(BigUint::from(10u32)));
    assert_eq!(parse(String::from("百")), Ok(BigUint::from(100u32)));
    assert_eq!(parse(String::from("千")), Ok(BigUint::from(1000u32)));
}

#[test]
fn zero_before_a_place_character_counts_once() {
    assert_eq!(parse(String::from("零十")), Ok(BigUint::from(10u32)));
    assert_eq!(parse(String::from("零千五")), Ok(BigUint::from(1005u32)));
}

#[test]
fn digit_after_digit_adds_as_units() {
    assert_eq!(parse(String::from("一二")), Ok(BigUint::from(3u32)));
    assert_eq!(parse(String::from("九九九")), Ok(BigUint::from(27u32)));
    assert_eq!(parse(String::from("三四十")), Ok(BigUint::from(43u32)));
}

#[test]
fn myriad_scale_composition() {
    assert_eq!(parse(String::from("一億五千万")), Ok(BigUint::from(150_000_000u64)));
    assert_eq!(
        parse(String::from("一兆五千億")),
        Ok(BigUint::from(1_500_000_000_000u64))
    );
}

#[test]
fn every_scale_word_has_its_exponent() {
    let words = [
        ("万", 4),
        ("億", 8),
        ("兆", 12),
        ("京", 16),
        ("垓", 20),
        ("𥝱", 24),
        ("穣", 28),
        ("溝", 32),
        ("澗", 36),
        ("正", 40),
        ("載", 44),
        ("極", 48),
        ("恒河沙", 52),
        ("阿僧祇", 56),
        ("那由他", 60),
        ("不可思議", 64),
        ("無量大数", 68),
    ];
    for (word, exponent) in words.iter() {
        let mut text = String::from("三");
        text.push_str(word);
        assert_eq!(parse(text), Ok(BigUint::from(3u32) * ten_to(*exponent)));
    }
}

#[test]
fn compound_scale_composition() {
    let text = "五千六百七十八溝九千十二穣三千四百五十六𥝱七千八百九十垓千二百三十四京五千六百七十八兆九千十二億三千四百五十六万七千八百九十";
    assert_eq!(
        parse(String::from(text)),
        Ok(decimal("567890123456789012345678901234567890"))
    );
}

#[test]
fn extreme_scale_composition() {
    let text = "十二無量大数三千四百五十六不可思議七千八百九十那由他千二百三十四阿僧祇五千六百七十八恒河沙";
    let mut digits = String::from("123456789012345678");
    for _ in 0..52 {
        digits.push('0');
    }
    assert_eq!(parse(String::from(text)), Ok(decimal(&digits)));
}

#[test]
fn omitted_block_counts_zero() {
    assert_eq!(
        parse(String::from("二恒河沙七")),
        Ok(BigUint::from(2u32) * ten_to(52) + BigUint::from(7u32))
    );
}

#[test]
fn invalid_text_is_rejected() {
    assert_eq!(parse(String::from("数ではない")), Err(KanjiNumberParseError));
    assert_eq!(parse(String::from("123")), Err(KanjiNumberParseError));
    assert_eq!(parse(String::from("一 二")), Err(KanjiNumberParseError));
    assert_eq!(parse(String::from("壱")), Err(KanjiNumberParseError));
}

#[test]
fn unrecognized_character_anywhere_is_rejected() {
    let numeral: Vec<char> = "四千三百二十一万五恒河沙".chars().collect();
    for at in 0..=numeral.len() {
        let mut text: Vec<char> = numeral.clone();
        text.insert(at, 'x');
        let text: String = text.into_iter().collect();
        assert_eq!(parse(text), Err(KanjiNumberParseError));
    }
}

#[test]
fn compound_word_out_of_place_is_rejected() {
    assert_eq!(parse(String::from("河")), Err(KanjiNumberParseError));
    assert_eq!(parse(String::from("沙")), Err(KanjiNumberParseError));
    assert_eq!(parse(String::from("恒沙")), Err(KanjiNumberParseError));
    assert_eq!(parse(String::from("恒恒")), Err(KanjiNumberParseError));
    assert_eq!(parse(String::from("恒僧")), Err(KanjiNumberParseError));
    assert_eq!(parse(String::from("恒阿")), Err(KanjiNumberParseError));
    assert_eq!(parse(String::from("不可議")), Err(KanjiNumberParseError));
    assert_eq!(parse(String::from("無量大数数")), Err(KanjiNumberParseError));
}

#[test]
fn other_character_within_a_compound_word_is_rejected() {
    assert_eq!(parse(String::from("恒一河沙")), Err(KanjiNumberParseError));
    assert_eq!(parse(String::from("恒河十沙")), Err(KanjiNumberParseError));
    assert_eq!(parse(String::from("那万由他")), Err(KanjiNumberParseError));
}

#[test]
fn unfinished_compound_word_counts_for_nothing() {
    assert_eq!(parse(String::from("恒")), Ok(BigUint::from(0u32)));
    assert_eq!(parse(String::from("一恒河")), Ok(BigUint::from(1u32)));
    assert_eq!(parse(String::from("二千三無量大")), Ok(BigUint::from(2003u32)));
}

#[test]
fn scale_words_add_up_in_any_order() {
    assert_eq!(parse(String::from("万")), Ok(BigUint::from(0u32)));
    assert_eq!(parse(String::from("一万一万")), Ok(BigUint::from(20_000u32)));
    assert_eq!(parse(String::from("一万一億")), Ok(BigUint::from(100_010_000u32)));
    assert_eq!(parse(String::from("一万万")), Ok(BigUint::from(10_000u32)));
}

#[test]
fn swapping_two_digits_moves_their_place_values() {
    let before = parse(String::from("四千三百二十一")).unwrap();
    let after = parse(String::from("二千三百四十一")).unwrap();
    assert_eq!(before, BigUint::from(4321u32));
    assert_eq!(after, BigUint::from(2341u32));
    // (2 - 4) * (1000 - 10)
    assert_eq!(before - after, BigUint::from(1980u32));
}

#[test]
fn replacing_a_digit_changes_the_value_by_its_place() {
    let before = parse(String::from("三千万")).unwrap();
    let after = parse(String::from("七千万")).unwrap();
    assert_eq!(after - before, BigUint::from(4u32 * 1000 * 10_000));
}

#[test]
fn reading_is_repeatable() {
    let text = "九千九百九十九極九千九百九十九";
    assert_eq!(parse(String::from(text)), parse(String::from(text)));
}

#[test]
fn long_text_is_read_exactly() {
    let count: usize = 2_200_000;
    let mut text = String::with_capacity(count * 3);
    for _ in 0..count {
        text.push('千');
    }
    assert_eq!(parse(text), Ok(BigUint::from(2_200_000_000u64)));
}

#[test]
fn add_scaled_adds_the_scaled_amount() {
    let mut total = BigUint::from(5u32);
    add_scaled(&mut total, 3, 2);
    assert_eq!(total, BigUint::from(305u32));
    add_scaled(&mut total, 7, 0);
    assert_eq!(total, BigUint::from(312u32));
    add_scaled(&mut total, 0, 68);
    assert_eq!(total, BigUint::from(312u32));
    add_scaled(&mut total, u128::MAX, 1);
    assert_eq!(total, BigUint::from(u128::MAX) * BigUint::from(10u32) + BigUint::from(312u32));
}

#[test]
fn error_message_is_fixed() {
    assert_eq!(
        KanjiNumberParseError.message(),
        String::from("A kanji number parse error occured")
    );
}
