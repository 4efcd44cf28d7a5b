use rag_core::rag::text_splitter::TextSplitter;
use rag_core::rag::ConfigError;

fn chars_of(text: &str) -> Vec<char> {
    text.chars().collect()
}

#[test]
fn test_split() {
    let splitter = TextSplitter::new(10, 2).unwrap();
    let text = "这是一个测试文本用于验证分块功能是否正常工作";
    let chunks = splitter.split(text);

    assert!(chunks.len() > 1);
    println!("分块数量: {}", chunks.len());
    for (i, chunk) in chunks.iter().enumerate() {
        println!("块 {}: {}", i + 1, chunk);
    }
}

#[test]
fn test_split_by_paragraphs() {
    let splitter = TextSplitter::default();
    let text = "第一段内容。\n\n第二段内容。\n\n第三段内容。";
    let chunks = splitter.split_by_paragraphs(text);

    assert_eq!(chunks.len(), 3);
    assert_eq!(chunks[0], "第一段内容。");
    assert_eq!(chunks[1], "第二段内容。");
    assert_eq!(chunks[2], "第三段内容。");
}

#[test]
fn test_split_smart() {
    let splitter = TextSplitter::new(20, 5).unwrap();
    let text = "短段落。\n\n这是一个非常非常非常非常非常非常非常非常长的段落需要分割。";
    let chunks = splitter.split_smart(text);

    assert!(chunks.len() >= 2);
    for (i, chunk) in chunks.iter().enumerate() {
        println!("智能分块 {}: {}", i + 1, chunk);
    }
}

#[test]
fn split_windows_of_ten_overlap_by_two() {
    let splitter = TextSplitter::new(10, 2).unwrap();
    let text = "这是一个测试文本用于验证分块功能是否正常工作";
    assert_eq!(text.chars().count(), 22);
    let chunks = splitter.split(text);
    assert_eq!(
        chunks,
        vec![
            "这是一个测试文本用于".to_string(),
            "用于验证分块功能是否".to_string(),
            "是否正常工作".to_string(),
        ]
    );
    for chunk in &chunks {
        assert!(chunk.chars().count() <= 10);
    }
    for pair in chunks.windows(2) {
        let before = chars_of(&pair[0]);
        let after = chars_of(&pair[1]);
        assert_eq!(&before[before.len() - 2..], &after[..2]);
    }
}

#[test]
fn split_smart_end_to_end_chunks_overlap() {
    let splitter = TextSplitter::new(10, 2).unwrap();
    let text = "这是一个测试文本用于验证分块功能是否正常工作";
    let chunks = splitter.split_smart(text);
    assert!(chunks.len() >= 2);
    assert_eq!(chunks, splitter.split(text));
}

#[test]
fn split_of_empty_text_is_empty() {
    let splitter = TextSplitter::new(10, 2).unwrap();
    assert!(splitter.split("").is_empty());
    assert!(splitter.split_by_paragraphs("").is_empty());
    assert!(splitter.split_smart("").is_empty());
}

#[test]
fn split_of_short_text_is_the_text() {
    let splitter = TextSplitter::new(10, 2).unwrap();
    assert_eq!(splitter.split("abc"), vec!["abc".to_string()]);
    assert_eq!(splitter.split("abcdefghij"), vec!["abcdefghij".to_string()]);
}

#[test]
fn split_last_window_may_be_short() {
    let splitter = TextSplitter::new(4, 1).unwrap();
    assert_eq!(
        splitter.split("abcdefgh"),
        vec!["abcd".to_string(), "defg".to_string(), "gh".to_string()]
    );
    assert_eq!(
        splitter.split("abcdefg"),
        vec!["abcd".to_string(), "defg".to_string()]
    );
    let no_overlap = TextSplitter::new(3, 0).unwrap();
    assert_eq!(
        no_overlap.split("abcdefg"),
        vec!["abc".to_string(), "def".to_string(), "g".to_string()]
    );
}

#[test]
fn split_reassembles_to_the_text() {
    let splitter = TextSplitter::new(7, 3).unwrap();
    let text = "The quick brown fox jumps over the lazy dog, twice over.";
    let chunks = splitter.split(text);
    let mut rebuilt = String::new();
    for (i, chunk) in chunks.iter().enumerate() {
        let skip = if i == 0 { 0 } else { 3 };
        rebuilt.extend(chunk.chars().skip(skip));
    }
    assert_eq!(rebuilt, text);
    for (i, chunk) in chunks.iter().enumerate() {
        if i + 1 < chunks.len() {
            assert_eq!(chunk.chars().count(), 7);
        } else {
            assert!(chunk.chars().count() <= 7);
        }
    }
}

#[test]
fn new_refuses_overlap_not_below_size() {
    assert_eq!(TextSplitter::new(10, 10).err(), Some(ConfigError::OverlapNotBelowChunkSize));
    assert_eq!(TextSplitter::new(10, 11).err(), Some(ConfigError::OverlapNotBelowChunkSize));
    assert_eq!(TextSplitter::new(0, 0).err(), Some(ConfigError::OverlapNotBelowChunkSize));
    assert!(TextSplitter::new(1, 0).is_ok());
}

#[test]
fn paragraphs_drop_blank_pieces_and_keep_the_rest_as_it_is() {
    let splitter = TextSplitter::default();
    assert_eq!(
        splitter.split_by_paragraphs("a\n\n \t\n\nb"),
        vec!["a".to_string(), "b".to_string()]
    );
    assert_eq!(
        splitter.split_by_paragraphs("a\n\n\nb"),
        vec!["a".to_string(), "\nb".to_string()]
    );
    assert_eq!(
        splitter.split_by_paragraphs("\n\n\n\n"),
        Vec::<String>::new()
    );
    assert_eq!(
        splitter.split_by_paragraphs(" a \n\n\u{3000}\n\nb\n"),
        vec![" a ".to_string(), "b\n".to_string()]
    );
    assert_eq!(splitter.split_by_paragraphs("a\nb"), vec!["a\nb".to_string()]);
}

#[test]
fn split_smart_cuts_only_long_paragraphs() {
    let splitter = TextSplitter::new(5, 1).unwrap();
    let chunks = splitter.split_smart("abc\n\nabcdefghij\n\n  \n\nxy");
    assert_eq!(
        chunks,
        vec![
            "abc".to_string(),
            "abcde".to_string(),
            "efghi".to_string(),
            "ij".to_string(),
            "xy".to_string(),
        ]
    );
}
