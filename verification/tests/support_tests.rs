use rlox::{error, grow_capacity, line_error, Chunk, Object, OpCode, TokenType};

#[test]
fn line_error_format() {
    assert_eq!(line_error(0, "Unexpected character"), "[line 0] Error : Unexpected character");
    assert_eq!(line_error(42, "Unterminated string"), "[line 42] Error : Unterminated string");
    assert_eq!(line_error(1005, "boom"), "[line 1005] Error : boom");
}

#[test]
fn error_format_matches_line_error() {
    assert_eq!(error(7, "oops".to_string()), line_error(7, "oops"));
}

#[test]
fn object_display_forms() {
    assert_eq!(Object::Num("123.456".to_string()).to_display_string(), "123.456");
    assert_eq!(Object::Str("text".to_string()).to_display_string(), "text");
    assert_eq!(Object::Bool(true).to_display_string(), "true");
    assert_eq!(Object::Bool(false).to_display_string(), "false");
    assert_eq!(Object::Nil.to_display_string(), "nil");
}

#[test]
fn token_type_names() {
    assert_eq!(TokenType::LEFT_PAREN.name(), "LEFT_PAREN");
    assert_eq!(TokenType::BANG_EQUAL.name(), "BANG_EQUAL");
    assert_eq!(TokenType::IDENTIFIER.name(), "IDENTIFIER");
    assert_eq!(TokenType::EOF.name(), "EOF");
}

#[test]
fn opcode_values() {
    assert_eq!(OpCode::OP_CONSTANT.value(), 0);
    assert_eq!(OpCode::OP_RETURN.value(), 1);
}

#[test]
fn grow_capacity_rule() {
    assert_eq!(grow_capacity(0), 8);
    assert_eq!(grow_capacity(7), 8);
    assert_eq!(grow_capacity(8), 16);
    assert_eq!(grow_capacity(1024), 2048);
}

#[test]
fn chunk_records_bytes_and_lines() {
    let mut chunk = Chunk::new();
    chunk.write_chunk(OpCode::OP_CONSTANT.value(), 123);
    chunk.write_chunk(0, 123);
    chunk.write_chunk(OpCode::OP_RETURN.value(), 124);

    assert_eq!(chunk.count(), 3);
    assert_eq!(chunk.code(), &vec![0u8, 0u8, 1u8]);
    assert_eq!(chunk.lines(), &vec![123, 123, 124]);
}
