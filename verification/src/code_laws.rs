//! Platform key codes pinned to their published values.
use crate::hotkey::{common_x11_key, mac_code, mac_code_key, x11_code_key, x11_sym, Key};
use vstd::prelude::*;

verus! {

/// The Carbon code of every letter and digit is its `kVK_ANSI_*` value on
/// the US layout, Space is `kVK_Space` and F1–F12 are the `kVK_F*` codes;
/// each of these codes reads back as its key.
pub proof fn lemma_carbon_codes()
    ensures
        mac_code(Key::Char('A')) == Some(0x00u32) && mac_code_key(0x00) == Some(Key::Char('A')),
        mac_code(Key::Char('S')) == Some(0x01u32) && mac_code_key(0x01) == Some(Key::Char('S')),
        mac_code(Key::Char('D')) == Some(0x02u32) && mac_code_key(0x02) == Some(Key::Char('D')),
        mac_code(Key::Char('F')) == Some(0x03u32) && mac_code_key(0x03) == Some(Key::Char('F')),
        mac_code(Key::Char('H')) == Some(0x04u32) && mac_code_key(0x04) == Some(Key::Char('H')),
        mac_code(Key::Char('G')) == Some(0x05u32) && mac_code_key(0x05) == Some(Key::Char('G')),
        mac_code(Key::Char('Z')) == Some(0x06u32) && mac_code_key(0x06) == Some(Key::Char('Z')),
        mac_code(Key::Char('X')) == Some(0x07u32) && mac_code_key(0x07) == Some(Key::Char('X')),
        mac_code(Key::Char('C')) == Some(0x08u32) && mac_code_key(0x08) == Some(Key::Char('C')),
        mac_code(Key::Char('V')) == Some(0x09u32) && mac_code_key(0x09) == Some(Key::Char('V')),
        mac_code(Key::Char('B')) == Some(0x0Bu32) && mac_code_key(0x0B) == Some(Key::Char('B')),
        mac_code(Key::Char('Q')) == Some(0x0Cu32) && mac_code_key(0x0C) == Some(Key::Char('Q')),
        mac_code(Key::Char('W')) == Some(0x0Du32) && mac_code_key(0x0D) == Some(Key::Char('W')),
        mac_code(Key::Char('E')) == Some(0x0Eu32) && mac_code_key(0x0E) == Some(Key::Char('E')),
        mac_code(Key::Char('R')) == Some(0x0Fu32) && mac_code_key(0x0F) == Some(Key::Char('R')),
        mac_code(Key::Char('Y')) == Some(0x10u32) && mac_code_key(0x10) == Some(Key::Char('Y')),
        mac_code(Key::Char('T')) == Some(0x11u32) && mac_code_key(0x11) == Some(Key::Char('T')),
        mac_code(Key::Char('1')) == Some(0x12u32) && mac_code_key(0x12) == Some(Key::Char('1')),
        mac_code(Key::Char('2')) == Some(0x13u32) && mac_code_key(0x13) == Some(Key::Char('2')),
        mac_code(Key::Char('3')) == Some(0x14u32) && mac_code_key(0x14) == Some(Key::Char('3')),
        mac_code(Key::Char('4')) == Some(0x15u32) && mac_code_key(0x15) == Some(Key::Char('4')),
        mac_code(Key::Char('6')) == Some(0x16u32) && mac_code_key(0x16) == Some(Key::Char('6')),
        mac_code(Key::Char('5')) == Some(0x17u32) && mac_code_key(0x17) == Some(Key::Char('5')),
        mac_code(Key::Char('9')) == Some(0x19u32) && mac_code_key(0x19) == Some(Key::Char('9')),
        mac_code(Key::Char('7')) == Some(0x1Au32) && mac_code_key(0x1A) == Some(Key::Char('7')),
        mac_code(Key::Char('8')) == Some(0x1Cu32) && mac_code_key(0x1C) == Some(Key::Char('8')),
        mac_code(Key::Char('0')) == Some(0x1Du32) && mac_code_key(0x1D) == Some(Key::Char('0')),
        mac_code(Key::Char('O')) == Some(0x1Fu32) && mac_code_key(0x1F) == Some(Key::Char('O')),
        mac_code(Key::Char('U')) == Some(0x20u32) && mac_code_key(0x20) == Some(Key::Char('U')),
        mac_code(Key::Char('I')) == Some(0x22u32) && mac_code_key(0x22) == Some(Key::Char('I')),
        mac_code(Key::Char('P')) == Some(0x23u32) && mac_code_key(0x23) == Some(Key::Char('P')),
        mac_code(Key::Char('L')) == Some(0x25u32) && mac_code_key(0x25) == Some(Key::Char('L')),
        mac_code(Key::Char('J')) == Some(0x26u32) && mac_code_key(0x26) == Some(Key::Char('J')),
        mac_code(Key::Char('K')) == Some(0x28u32) && mac_code_key(0x28) == Some(Key::Char('K')),
        mac_code(Key::Char('N')) == Some(0x2Du32) && mac_code_key(0x2D) == Some(Key::Char('N')),
        mac_code(Key::Char('M')) == Some(0x2Eu32) && mac_code_key(0x2E) == Some(Key::Char('M')),
        mac_code(Key::Space) == Some(0x31u32) && mac_code_key(0x31) == Some(Key::Space),
        mac_code(Key::F(1)) == Some(0x7Au32) && mac_code_key(0x7A) == Some(Key::F(1)),
        mac_code(Key::F(2)) == Some(0x78u32) && mac_code_key(0x78) == Some(Key::F(2)),
        mac_code(Key::F(3)) == Some(0x63u32) && mac_code_key(0x63) == Some(Key::F(3)),
        mac_code(Key::F(4)) == Some(0x76u32) && mac_code_key(0x76) == Some(Key::F(4)),
        mac_code(Key::F(5)) == Some(0x60u32) && mac_code_key(0x60) == Some(Key::F(5)),
        mac_code(Key::F(6)) == Some(0x61u32) && mac_code_key(0x61) == Some(Key::F(6)),
        mac_code(Key::F(7)) == Some(0x62u32) && mac_code_key(0x62) == Some(Key::F(7)),
        mac_code(Key::F(8)) == Some(0x64u32) && mac_code_key(0x64) == Some(Key::F(8)),
        mac_code(Key::F(9)) == Some(0x65u32) && mac_code_key(0x65) == Some(Key::F(9)),
        mac_code(Key::F(10)) == Some(0x6Du32) && mac_code_key(0x6D) == Some(Key::F(10)),
        mac_code(Key::F(11)) == Some(0x67u32) && mac_code_key(0x67) == Some(Key::F(11)),
        mac_code(Key::F(12)) == Some(0x6Fu32) && mac_code_key(0x6F) == Some(Key::F(12)),
{
}

/// A lower-case letter has the Carbon code of its capital.
pub proof fn lemma_carbon_codes_lower_case()
    ensures
        mac_code(Key::Char('a')) == Some(0x00u32),
        mac_code(Key::Char('s')) == Some(0x01u32),
        mac_code(Key::Char('d')) == Some(0x02u32),
        mac_code(Key::Char('f')) == Some(0x03u32),
        mac_code(Key::Char('h')) == Some(0x04u32),
        mac_code(Key::Char('g')) == Some(0x05u32),
        mac_code(Key::Char('z')) == Some(0x06u32),
        mac_code(Key::Char('x')) == Some(0x07u32),
        mac_code(Key::Char('c')) == Some(0x08u32),
        mac_code(Key::Char('v')) == Some(0x09u32),
        mac_code(Key::Char('b')) == Some(0x0Bu32),
        mac_code(Key::Char('q')) == Some(0x0Cu32),
        mac_code(Key::Char('w')) == Some(0x0Du32),
        mac_code(Key::Char('e')) == Some(0x0Eu32),
        mac_code(Key::Char('r')) == Some(0x0Fu32),
        mac_code(Key::Char('y')) == Some(0x10u32),
        mac_code(Key::Char('t')) == Some(0x11u32),
        mac_code(Key::Char('o')) == Some(0x1Fu32),
        mac_code(Key::Char('u')) == Some(0x20u32),
        mac_code(Key::Char('i')) == Some(0x22u32),
        mac_code(Key::Char('p')) == Some(0x23u32),
        mac_code(Key::Char('l')) == Some(0x25u32),
        mac_code(Key::Char('j')) == Some(0x26u32),
        mac_code(Key::Char('k')) == Some(0x28u32),
        mac_code(Key::Char('n')) == Some(0x2Du32),
        mac_code(Key::Char('m')) == Some(0x2Eu32),
{
}

/// The X11 keycodes of a US QWERTY keyboard: 24–33 are the top letter row
/// `QWERTYUIOP`, 38–46 the home row `ASDFGHJKL` and 52–58 the bottom row
/// `ZXCVBNM`, in order; a captured letter is the one on that key, and its
/// keysym is the same letter in lower case. The digit row 10–19 is
/// `1234567890`.
pub proof fn lemma_qwerty_letter_rows()
    ensures
        forall|code: u8|
            24 <= code <= 33 ==> #[trigger] common_x11_key(code) == Some(
                Key::Char("QWERTYUIOP"@[code - 24]),
            ) && x11_code_key(code) == common_x11_key(code) && x11_sym(
                common_x11_key(code).unwrap(),
            ) == "qwertyuiop"@[code - 24] as u32,
        forall|code: u8|
            38 <= code <= 46 ==> #[trigger] common_x11_key(code) == Some(
                Key::Char("ASDFGHJKL"@[code - 38]),
            ) && x11_code_key(code) == common_x11_key(code) && x11_sym(
                common_x11_key(code).unwrap(),
            ) == "asdfghjkl"@[code - 38] as u32,
        forall|code: u8|
            52 <= code <= 58 ==> #[trigger] common_x11_key(code) == Some(
                Key::Char("ZXCVBNM"@[code - 52]),
            ) && x11_code_key(code) == common_x11_key(code) && x11_sym(
                common_x11_key(code).unwrap(),
            ) == "zxcvbnm"@[code - 52] as u32,
        forall|code: u8|
            10 <= code <= 19 ==> #[trigger] x11_code_key(code) == Some(
                Key::Char("1234567890"@[code - 10]),
            ),
{
    reveal_strlit("QWERTYUIOP");
    reveal_strlit("ASDFGHJKL");
    reveal_strlit("ZXCVBNM");
    reveal_strlit("qwertyuiop");
    reveal_strlit("asdfghjkl");
    reveal_strlit("zxcvbnm");
    reveal_strlit("1234567890");
}

/// The other X11 keycodes a combo can use: 65 is Space, 67–76 are F1–F10,
/// 95 and 96 are F11 and F12.
pub proof fn lemma_x11_space_and_function_keys()
    ensures
        x11_code_key(65) == Some(Key::Space),
        forall|n: u8| 1 <= n <= 10 ==> #[trigger] x11_code_key((66 + n) as u8) == Some(Key::F(n)),
        x11_code_key(95) == Some(Key::F(11)),
        x11_code_key(96) == Some(Key::F(12)),
{
    assert forall|n: u8| 1 <= n <= 10 implies #[trigger] x11_code_key((66 + n) as u8) == Some(
        Key::F(n),
    ) by {
        let code = (66 + n) as u8;
        assert(code - 66 == n);
    }
}

} // verus!
