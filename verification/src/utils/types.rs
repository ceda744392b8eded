//! Values of the well-known types, and how they are read from their bytes.
//!
//! All numbers are big-endian. A floating-point number is kept as its bits:
//! its text has seven fractional digits and is made where floating-point
//! arithmetic is at hand.

use crate::bytes::{
    lemma_u16_be_of_bytes, lemma_u32_be_of_bytes, lemma_u64_be_of_bytes, spec_u128_be,
    spec_u128_be_bytes, spec_u16_be, spec_u16_be_bytes, spec_u32_be, spec_u32_be_bytes,
    spec_u64_be, spec_u64_be_bytes, u128_be_at, u16_be_at, u32_be_at, u64_be_at, write_bytes,
    write_u128_be, write_u16_be, write_u32_be, write_u64_be,
};
use crate::error::Error;
use crate::utils::text::{
    decimal, from_utf8_lossy, hex_upper, lossy_text, push_decimal_u128, push_hex_upper,
    string_from_utf8,
};
use vstd::prelude::*;
use vstd::string::StringExecFns;
use vstd::utf8::{
    decode_utf8, encode_utf8, encode_utf8_decode_utf8, encode_utf8_valid_utf8, valid_utf8,
};

verus! {

/// The id of the type `CHAR`.
pub const CHAR: u128 = 0x3AB0037F_AF8D_48CE_BCA0_A170D18B2C03;
/// The id of the type `SIGNED_CHAR`.
pub const SIGNED_CHAR: u128 = 0xCFD606FE_41B8_4744_B79F_8A6BD97713D8;
/// The id of the type `AZ_S8`.
pub const AZ_S8: u128 = 0x58422C0E_1E47_4854_98E6_34098F6FE12D;
/// The id of the type `SHORT`.
pub const SHORT: u128 = 0xB8A56D56_A10D_4DCE_9F63_405EE243DD3C;
/// The id of the type `INT`.
pub const INT: u128 = 0x72039442_EB38_4D42_A1AD_CB68F7E0EEF6;
/// The id of the type `LONG`.
pub const LONG: u128 = 0x8F24B9AD_7C51_46CF_B2F8_277356957325;
/// The id of the type `AZ_S64`.
pub const AZ_S64: u128 = 0x70D8A282_A1EA_462D_9D04_51EDE81FAC2F;
/// The id of the type `UNSIGNED_CHAR`.
pub const UNSIGNED_CHAR: u128 = 0x72B9409A_7D1A_4831_9CFE_FCB3FADD3426;
/// The id of the type `UNSIGNED_SHORT`.
pub const UNSIGNED_SHORT: u128 = 0xECA0B403_C4F8_4B86_95FC_81688D046E40;
/// The id of the type `UNSIGNED_INT`.
pub const UNSIGNED_INT: u128 = 0x43DA906B_7DEF_4CA8_9790_854106D3F983;
/// The id of the type `UNSIGNED_LONG`.
pub const UNSIGNED_LONG: u128 = 0x5EC2D6F7_6859_400F_9215_C106F5B10E53;
/// The id of the type `AZ_U64`.
pub const AZ_U64: u128 = 0xD6597933_47CD_4FC8_B911_63F3E2B0993A;
/// The id of the type `FLOAT`.
pub const FLOAT: u128 = 0xEA2C3E90_AFBE_44D4_A90D_FAAF79BAF93D;
/// The id of the type `DOUBLE`.
pub const DOUBLE: u128 = 0x110C4B14_11A8_4E9D_8638_5051013A56AC;
/// The id of the type `BOOL`.
pub const BOOL: u128 = 0xA0CA880C_AFE4_43CB_926C_59AC48496112;
/// The id of the type `AZ_UUID`.
pub const AZ_UUID: u128 = 0xE152C105_A133_4D03_BBF8_3D4B2FBA3E2A;
/// The id of the type `VOID`.
pub const VOID: u128 = 0xC0F1AFAD_5CB3_450E_B0F5_ADB5D46B0E22;
/// The id of the type `CRC32`.
pub const CRC32: u128 = 0x9F4E062E_06A0_46D4_85DF_E0DA96467D3A;
/// The id of the type `PLATFORM_ID`.
pub const PLATFORM_ID: u128 = 0x0635D08E_DDD2_48DE_A7AE_73CC563C57C3;
/// The id of the type `AZSTD_MONOSTATE`.
pub const AZSTD_MONOSTATE: u128 = 0xB1E9136B_D77A_4643_BE8E_2ABDA246AE0E;
/// The id of the type `AZSTD_LESS`.
pub const AZSTD_LESS: u128 = 0x41B40AFC_68FD_4ED9_9EC7_BA9992802E1B;
/// The id of the type `AZSTD_LESS_EQUAL`.
pub const AZSTD_LESS_EQUAL: u128 = 0x91CC0BDC_FC46_4617_A405_D914EF1C1902;
/// The id of the type `AZSTD_GREATER`.
pub const AZSTD_GREATER: u128 = 0x907F012A_7A4F_4B57_AC23_48DC08D0782E;
/// The id of the type `AZSTD_GREATER_EQUAL`.
pub const AZSTD_GREATER_EQUAL: u128 = 0xEB00488F_E20F_471A_B862_F1E3C39DDA1D;
/// The id of the type `AZSTD_EQUAL_TO`.
pub const AZSTD_EQUAL_TO: u128 = 0x4377BCED_F78C_4016_80BB_6AFACE6E5137;
/// The id of the type `AZSTD_HASH`.
pub const AZSTD_HASH: u128 = 0xEFA74E54_BDFA_47BE_91A7_5A05DA0306D7;
/// The id of the type `AZSTD_PAIR`.
pub const AZSTD_PAIR: u128 = 0x919645C1_E464_482B_A69B_04AA688B6847;
/// The id of the type `AZSTD_VECTOR`.
pub const AZSTD_VECTOR: u128 = 0xA60E3E61_1FF6_4982_B6B8_9E4350C4C679;
/// The id of the type `AZSTD_LIST`.
pub const AZSTD_LIST: u128 = 0xE1E05843_BB02_4F43_B7DC_3ADB28DF42AC;
/// The id of the type `AZSTD_FORWARD_LIST`.
pub const AZSTD_FORWARD_LIST: u128 = 0xD7E91EA3_326F_4019_87F0_6F45924B909A;
/// The id of the type `AZSTD_SET`.
pub const AZSTD_SET: u128 = 0x6C51837F_B0C9_40A3_8D52_2143341EDB07;
/// The id of the type `AZSTD_UNORDERED_SET`.
pub const AZSTD_UNORDERED_SET: u128 = 0x8D60408E_DA65_4670_99A2_8ABB574625AE;
/// The id of the type `AZSTD_UNORDERED_MULTISET`.
pub const AZSTD_UNORDERED_MULTISET: u128 = 0xB5950921_7F70_4806_9C13_8C7DF841BB90;
/// The id of the type `AZSTD_MAP`.
pub const AZSTD_MAP: u128 = 0xF8ECF58D_D33E_49DC_BF34_8FA499AC3AE1;
/// The id of the type `AZSTD_UNORDERED_MAP`.
pub const AZSTD_UNORDERED_MAP: u128 = 0x41171F6F_9E5E_4227_8420_289F1DD5D005;
/// The id of the type `AZSTD_UNORDERED_MULTIMAP`.
pub const AZSTD_UNORDERED_MULTIMAP: u128 = 0x9ED846FA_31C1_4133_B4F4_91DF9750BA96;
/// The id of the type `AZSTD_SHARED_PTR`.
pub const AZSTD_SHARED_PTR: u128 = 0xFE61C84E_149D_43FD_88BA_1C3DB7E548B4;
/// The id of the type `AZSTD_INTRUSIVE_PTR`.
pub const AZSTD_INTRUSIVE_PTR: u128 = 0x530F8502_309E_4EE1_9AEF_5C0456B1F502;
/// The id of the type `AZSTD_OPTIONAL`.
pub const AZSTD_OPTIONAL: u128 = 0xAB8C50C0_23A7_4333_81CD_46F648938B1C;
/// The id of the type `AZSTD_BASIC_STRING`.
pub const AZSTD_BASIC_STRING: u128 = 0xC26397ED_8F60_4DF6_8320_0D0C592DA3CD;
/// The id of the type `AZSTD_CHAR_TRAITS`.
pub const AZSTD_CHAR_TRAITS: u128 = 0x9B018C0C_022E_4BA4_AE91_2C1E8592DBB2;
/// The id of the type `AZSTD_BASIC_STRING_VIEW`.
pub const AZSTD_BASIC_STRING_VIEW: u128 = 0xD348D661_6BDE_4C0A_9540_FCEA4522D497;
/// The id of the type `AZSTD_FIXED_VECTOR`.
pub const AZSTD_FIXED_VECTOR: u128 = 0x74044B6F_E922_4FD7_915D_EFC5D1DC59AE;
/// The id of the type `AZSTD_FIXED_LIST`.
pub const AZSTD_FIXED_LIST: u128 = 0x508B9687_8410_4A73_AE0C_0BA15CF3F773;
/// The id of the type `AZSTD_FIXED_FORWARD_LIST`.
pub const AZSTD_FIXED_FORWARD_LIST: u128 = 0x0D9D2AB2_F0CC_4E30_A209_A33D78717649;
/// The id of the type `AZSTD_ARRAY`.
pub const AZSTD_ARRAY: u128 = 0x911B2EA8_CCB1_4F0C_A535_540AD00173AE;
/// The id of the type `AZSTD_BITSET`.
pub const AZSTD_BITSET: u128 = 0x6BAE9836_EC49_466A_85F2_F4B1B70839FB;
/// The id of the type `VARIANT`.
pub const VARIANT: u128 = 0x1E8BB1E5_410A_4367_8FAA_D43A4DE14D4B;
/// The id of the type `AZSTD_FUNCTION`.
pub const AZSTD_FUNCTION: u128 = 0xC9F9C644_CCC3_4F77_A792_F5B5DBCA746E;
/// The id of the type `ASSET`.
pub const ASSET: u128 = 0x77A19D40_8731_4D3C_9041_1B43047366A4;
/// The id of the type `VECTOR2`.
pub const VECTOR2: u128 = 0x3D80F623_C85C_4741_90D0_E4E66164E6BF;
/// The id of the type `VECTOR3`.
pub const VECTOR3: u128 = 0x8379EB7D_01FA_4538_B64B_A6543B4BE73D;
/// The id of the type `TRANSFORM`.
pub const TRANSFORM: u128 = 0x5D9958E9_9F1E_4985_B532_FFFDE75FEDFD;
/// The id of the type `QUATERNION`.
pub const QUATERNION: u128 = 0x73103120_3DD3_4873_BAB3_9713FA2804FB;
/// The id of the type `COLOR`.
pub const COLOR: u128 = 0x7894072A_9050_4F0F_901B_34B1A0D29417;
/// The id of the type `MATRIX3X3`.
pub const MATRIX3X3: u128 = 0x15A4332F_7C3F_4A58_AC35_50E1CE53FB9C;

/// A reference to an asset.
#[derive(Debug)]
pub struct Asset {
    /// The id of the asset, in braces and upper case.
    pub guid: String,
    /// The sub-id of the asset.
    pub sub_id: u128,
    /// The id of the asset's type, in braces and upper case.
    pub kind: String,
    /// The hint: a path to the asset.
    pub hint: String,
}

/// The value of an element.
#[derive(Debug)]
pub enum Value {
    /// A signed number.
    Signed(i64),
    /// An unsigned number.
    Unsigned(u64),
    /// A truth value.
    Bool(bool),
    /// A text.
    Text(String),
    /// The bits of a single, which is written with seven fractional digits.
    Single(u32),
    /// The bits of a double, which is written with seven fractional digits.
    Double(u64),
    /// The bits of singles, each written as a text of its own.
    Singles(Vec<u32>),
    /// The bits of singles, written as one text with spaces between them.
    SinglesJoined(Vec<u32>),
    /// A reference to an asset, written as an object.
    Asset(Asset),
    /// A list of singles, written as the text of its JSON.
    SinglesJson(Vec<u32>),
    /// A reference to an asset, written as the text of its JSON.
    AssetJson(Asset),
}

/// What an [`Asset`] holds.
pub struct AssetModel {
    pub guid: Seq<char>,
    pub sub_id: u128,
    pub kind: Seq<char>,
    pub hint: Seq<char>,
}

/// What a [`Value`] holds.
pub enum ValueModel {
    Signed(i64),
    Unsigned(u64),
    Bool(bool),
    Text(Seq<char>),
    Single(u32),
    Double(u64),
    Singles(Seq<u32>),
    SinglesJoined(Seq<u32>),
    Asset(AssetModel),
    SinglesJson(Seq<u32>),
    AssetJson(AssetModel),
}

impl View for Asset {
    type V = AssetModel;

    open spec fn view(&self) -> AssetModel {
        AssetModel { guid: self.guid@, sub_id: self.sub_id, kind: self.kind@, hint: self.hint@ }
    }
}

impl View for Value {
    type V = ValueModel;

    open spec fn view(&self) -> ValueModel {
        match self {
            Value::Signed(v) => ValueModel::Signed(*v),
            Value::Unsigned(v) => ValueModel::Unsigned(*v),
            Value::Bool(v) => ValueModel::Bool(*v),
            Value::Text(v) => ValueModel::Text(v@),
            Value::Single(v) => ValueModel::Single(*v),
            Value::Double(v) => ValueModel::Double(*v),
            Value::Singles(v) => ValueModel::Singles(v@),
            Value::SinglesJoined(v) => ValueModel::SinglesJoined(v@),
            Value::Asset(v) => ValueModel::Asset(v@),
            Value::SinglesJson(v) => ValueModel::SinglesJson(v@),
            Value::AssetJson(v) => ValueModel::AssetJson(v@),
        }
    }
}

/// An id in braces, with hyphens and in upper case:
/// `{XXXXXXXX-XXXX-XXXX-XXXX-XXXXXXXXXXXX}`.
#[verifier::opaque]
pub open spec fn uuid_text(id: u128) -> Seq<char> {
    let bytes = spec_u128_be_bytes(id);
    "{"@ + hex_upper(bytes.subrange(0, 4)) + "-"@ + hex_upper(bytes.subrange(4, 6)) + "-"@
        + hex_upper(bytes.subrange(6, 8)) + "-"@ + hex_upper(bytes.subrange(8, 10)) + "-"@
        + hex_upper(bytes.subrange(10, 16)) + "}"@
}

/// Writes an id in braces, with hyphens and in upper case.
pub fn uuid_braced_upper(id: u128) -> (r: String)
    ensures
        r@ == uuid_text(id),
{
    reveal(uuid_text);
    let mut bytes: Vec<u8> = Vec::new();
    write_u128_be(&mut bytes, id);
    assert(bytes@ =~= spec_u128_be_bytes(id));
    let mut out = String::from_str("{");
    push_hex_upper(&mut out, bytes.as_slice(), 0, 4);
    out.append("-");
    push_hex_upper(&mut out, bytes.as_slice(), 4, 6);
    out.append("-");
    push_hex_upper(&mut out, bytes.as_slice(), 6, 8);
    out.append("-");
    push_hex_upper(&mut out, bytes.as_slice(), 8, 10);
    out.append("-");
    push_hex_upper(&mut out, bytes.as_slice(), 10, 16);
    out.append("}");
    out
}

/// The number that `width` bytes in two's complement stand for, where `raw`
/// is the number they make without a sign.
pub open spec fn twos_complement(raw: int, width: int) -> int {
    if width == 1 {
        if raw >= 0x80 {
            raw - 0x100
        } else {
            raw
        }
    } else if width == 2 {
        if raw >= 0x8000 {
            raw - 0x1_0000
        } else {
            raw
        }
    } else if width == 4 {
        if raw >= 0x8000_0000 {
            raw - 0x1_0000_0000
        } else {
            raw
        }
    } else {
        if raw >= 0x8000_0000_0000_0000 {
            raw - 0x1_0000_0000_0000_0000
        } else {
            raw
        }
    }
}

/// The unsigned number that the `width` bytes of `data` make.
pub open spec fn unsigned_of(data: Seq<u8>, width: int) -> int {
    if width == 1 {
        data[0] as int
    } else if width == 2 {
        spec_u16_be(data, 0) as int
    } else if width == 4 {
        spec_u32_be(data, 0) as int
    } else {
        spec_u64_be(data, 0) as int
    }
}

/// The width in bytes of the signed integer type `id`, or 0 where it is none.
pub open spec fn signed_width(id: u128) -> int {
    if id == CHAR || id == AZ_S8 || id == SIGNED_CHAR {
        1
    } else if id == SHORT {
        2
    } else if id == INT {
        4
    } else if id == LONG || id == AZ_S64 {
        8
    } else {
        0
    }
}

/// The width in bytes of the unsigned integer type `id`, or 0 where it is none.
pub open spec fn unsigned_width(id: u128) -> int {
    if id == UNSIGNED_CHAR {
        1
    } else if id == UNSIGNED_SHORT {
        2
    } else if id == UNSIGNED_INT {
        4
    } else if id == UNSIGNED_LONG || id == AZ_U64 {
        8
    } else {
        0
    }
}

/// Whether the values of the type `id` are lists of singles.
pub open spec fn is_singles(id: u128) -> bool {
    id == VECTOR2 || id == VECTOR3 || id == TRANSFORM || id == COLOR || id == MATRIX3X3
}

/// The singles that `data` hold, four bytes each.
pub open spec fn singles_of(data: Seq<u8>) -> Seq<u32> {
    Seq::new(data.len() / 4, |i: int| spec_u32_be(data, 4 * i))
}

/// An asset reference as one text.
pub open spec fn asset_text(asset: AssetModel) -> Seq<char> {
    "id="@ + asset.guid + ":"@ + decimal(asset.sub_id as nat) + ",type="@ + asset.kind
        + ",hint={"@ + asset.hint + "}"@
}

/// The asset reference that `data` hold: the id, the sub-id, the type id,
/// the length of the hint in bytes, and the hint. The hint is read as
/// UTF-8, with a replacement character for what is none, and must have the
/// length that is announced.
pub open spec fn asset_of(data: Seq<u8>) -> Result<AssetModel, Error> {
    if data.len() < 56 {
        Err(Error::InvalidValueSize)
    } else {
        let hint = lossy_text(data.subrange(56, data.len() as int));
        if encode_utf8(hint).len() != spec_u64_be(data, 48) {
            Err(Error::InvalidValueSize)
        } else {
            Ok(
                AssetModel {
                    guid: uuid_text(spec_u128_be(data, 0)),
                    sub_id: spec_u128_be(data, 16),
                    kind: uuid_text(spec_u128_be(data, 32)),
                    hint,
                },
            )
        }
    }
}

/// The value that the bytes `data` stand for in an element of the type `id`.
/// A type that is not known gives the text that the bytes encode, and the
/// empty text where they encode none. `is_json` chooses the shape of lists
/// and asset references: a list or an object, and else one text.
pub open spec fn typed_value(id: u128, data: Seq<u8>, is_json: bool) -> Result<ValueModel, Error> {
    if signed_width(id) != 0 {
        if data.len() == signed_width(id) {
            Ok(
                ValueModel::Signed(
                    twos_complement(unsigned_of(data, signed_width(id)), signed_width(id)) as i64,
                ),
            )
        } else {
            Err(Error::InvalidValueSize)
        }
    } else if unsigned_width(id) != 0 {
        if data.len() == unsigned_width(id) {
            Ok(ValueModel::Unsigned(unsigned_of(data, unsigned_width(id)) as u64))
        } else {
            Err(Error::InvalidValueSize)
        }
    } else if id == FLOAT {
        if data.len() == 4 {
            Ok(ValueModel::Single(spec_u32_be(data, 0)))
        } else {
            Err(Error::InvalidValueSize)
        }
    } else if id == DOUBLE {
        if data.len() == 8 {
            Ok(ValueModel::Double(spec_u64_be(data, 0)))
        } else {
            Err(Error::InvalidValueSize)
        }
    } else if id == BOOL {
        if data.len() == 1 {
            Ok(ValueModel::Bool(data[0] != 0))
        } else {
            Err(Error::InvalidValueSize)
        }
    } else if id == AZ_UUID {
        if data.len() == 16 {
            Ok(ValueModel::Text(uuid_text(spec_u128_be(data, 0))))
        } else {
            Err(Error::InvalidValueSize)
        }
    } else if id == ASSET {
        match asset_of(data) {
            Err(e) => Err(e),
            Ok(asset) => if is_json {
                Ok(ValueModel::Asset(asset))
            } else {
                Ok(ValueModel::Text(asset_text(asset)))
            },
        }
    } else if is_singles(id) {
        if data.len() % 4 != 0 {
            Err(Error::InvalidValueSize)
        } else if is_json {
            Ok(ValueModel::Singles(singles_of(data)))
        } else {
            Ok(ValueModel::SinglesJoined(singles_of(data)))
        }
    } else if valid_utf8(data) {
        Ok(ValueModel::Text(decode_utf8(data)))
    } else {
        Ok(ValueModel::Text(Seq::empty()))
    }
}

/// Whether `r` holds the value, or the error, of `expected`.
pub open spec fn gives_value(r: Result<Value, Error>, expected: Result<ValueModel, Error>) -> bool {
    match r {
        Ok(value) => expected == Ok::<ValueModel, Error>(value@),
        Err(e) => expected == Err::<ValueModel, Error>(e),
    }
}

/// Reads the unsigned number that the `width` bytes of `data` make.
fn read_unsigned(data: &[u8], width: usize) -> (r: Option<u64>)
    requires
        width == 1 || width == 2 || width == 4 || width == 8,
    ensures
        r is Some == (data@.len() == width),
        r is Some ==> r->Some_0 == unsigned_of(data@, width as int),
{
    if data.len() != width {
        return None;
    }
    if width == 1 {
        Some(data[0] as u64)
    } else if width == 2 {
        Some(u16_be_at(data, 0) as u64)
    } else if width == 4 {
        Some(u32_be_at(data, 0) as u64)
    } else {
        Some(u64_be_at(data, 0))
    }
}

/// The number that `width` bytes in two's complement stand for.
fn to_signed(raw: u64, width: usize) -> (r: i64)
    requires
        width == 1 || width == 2 || width == 4 || width == 8,
        width == 1 ==> raw < 0x100,
        width == 2 ==> raw < 0x1_0000,
        width == 4 ==> raw < 0x1_0000_0000,
    ensures
        r == twos_complement(raw as int, width as int),
{
    if width == 1 {
        if raw >= 0x80 {
            raw as i64 - 0x100
        } else {
            raw as i64
        }
    } else if width == 2 {
        if raw >= 0x8000 {
            raw as i64 - 0x1_0000
        } else {
            raw as i64
        }
    } else if width == 4 {
        if raw >= 0x8000_0000 {
            raw as i64 - 0x1_0000_0000
        } else {
            raw as i64
        }
    } else {
        if raw >= 0x8000_0000_0000_0000 {
            ((raw - 0x8000_0000_0000_0000) as i64) + i64::MIN
        } else {
            raw as i64
        }
    }
}

/// The width in bytes of the signed integer type `id`, or 0 where it is none.
fn signed_width_of(id: u128) -> (r: usize)
    ensures
        r == signed_width(id),
{
    if id == CHAR || id == AZ_S8 || id == SIGNED_CHAR {
        1
    } else if id == SHORT {
        2
    } else if id == INT {
        4
    } else if id == LONG || id == AZ_S64 {
        8
    } else {
        0
    }
}

/// The width in bytes of the unsigned integer type `id`, or 0 where it is none.
fn unsigned_width_of(id: u128) -> (r: usize)
    ensures
        r == unsigned_width(id),
{
    if id == UNSIGNED_CHAR {
        1
    } else if id == UNSIGNED_SHORT {
        2
    } else if id == UNSIGNED_INT {
        4
    } else if id == UNSIGNED_LONG || id == AZ_U64 {
        8
    } else {
        0
    }
}

/// Reads the singles that `data` hold.
fn read_singles(data: &[u8]) -> (r: Vec<u32>)
    requires
        data@.len() % 4 == 0,
    ensures
        r@ == singles_of(data@),
{
    let count = data.len() / 4;
    let mut out: Vec<u32> = Vec::new();
    let mut i: usize = 0;
    while i < count
        invariant
            i <= count,
            count == data.len() / 4,
            data@.len() % 4 == 0,
            out@.len() == i,
            forall|k: int| 0 <= k < i ==> #[trigger] out@[k] == spec_u32_be(data@, 4 * k),
        decreases count - i,
    {
        out.push(u32_be_at(data, 4 * i));
        i += 1;
    }
    assert(out@ =~= singles_of(data@));
    out
}

/// Reads an asset reference.
fn read_asset(data: &[u8]) -> (r: Result<Asset, Error>)
    ensures
        match r {
            Ok(asset) => asset_of(data@) == Ok::<AssetModel, Error>(asset@),
            Err(e) => asset_of(data@) == Err::<AssetModel, Error>(e),
        },
{
    if data.len() < 56 {
        return Err(Error::InvalidValueSize);
    }
    let guid = u128_be_at(data, 0);
    let sub_id = u128_be_at(data, 16);
    let kind = u128_be_at(data, 32);
    let size = u64_be_at(data, 48);
    let hint = from_utf8_lossy(vstd::slice::slice_subrange(data, 56, data.len()));
    if hint.as_str().as_bytes().len() as u64 != size {
        return Err(Error::InvalidValueSize);
    }
    Ok(Asset { guid: uuid_braced_upper(guid), sub_id, kind: uuid_braced_upper(kind), hint })
}

/// Writes an asset reference as one text.
pub fn asset_string(asset: &Asset) -> (r: String)
    ensures
        r@ == asset_text(asset@),
{
    let mut out = String::from_str("id=");
    out.append(asset.guid.as_str());
    out.append(":");
    push_decimal_u128(&mut out, asset.sub_id);
    out.append(",type=");
    out.append(asset.kind.as_str());
    out.append(",hint={");
    out.append(asset.hint.as_str());
    out.append("}");
    out
}

/// Reads the value that `data` stand for in an element of the type `id`.
pub fn uuid_data_to_serialize(id: u128, data: &[u8], is_json: bool) -> (r: Result<Value, Error>)
    ensures
        gives_value(r, typed_value(id, data@, is_json)),
{
    let signed = signed_width_of(id);
    let unsigned = unsigned_width_of(id);
    if signed != 0 {
        match read_unsigned(data, signed) {
            Some(raw) => Ok(Value::Signed(to_signed(raw, signed))),
            None => Err(Error::InvalidValueSize),
        }
    } else if unsigned != 0 {
        match read_unsigned(data, unsigned) {
            Some(raw) => Ok(Value::Unsigned(raw)),
            None => Err(Error::InvalidValueSize),
        }
    } else if id == FLOAT {
        match read_unsigned(data, 4) {
            Some(raw) => Ok(Value::Single(raw as u32)),
            None => Err(Error::InvalidValueSize),
        }
    } else if id == DOUBLE {
        match read_unsigned(data, 8) {
            Some(raw) => Ok(Value::Double(raw)),
            None => Err(Error::InvalidValueSize),
        }
    } else if id == BOOL {
        match read_unsigned(data, 1) {
            Some(raw) => Ok(Value::Bool(raw != 0)),
            None => Err(Error::InvalidValueSize),
        }
    } else if id == AZ_UUID {
        if data.len() != 16 {
            return Err(Error::InvalidValueSize);
        }
        Ok(Value::Text(uuid_braced_upper(u128_be_at(data, 0))))
    } else if id == ASSET {
        match read_asset(data) {
            Err(e) => Err(e),
            Ok(asset) => if is_json {
                Ok(Value::Asset(asset))
            } else {
                Ok(Value::Text(asset_string(&asset)))
            },
        }
    } else if id == VECTOR2 || id == VECTOR3 || id == TRANSFORM || id == COLOR || id == MATRIX3X3 {
        if data.len() % 4 != 0 {
            Err(Error::InvalidValueSize)
        } else if is_json {
            Ok(Value::Singles(read_singles(data)))
        } else {
            Ok(Value::SinglesJoined(read_singles(data)))
        }
    } else {
        let mut copy: Vec<u8> = Vec::new();
        write_bytes(&mut copy, data);
        assert(copy@ =~= data@);
        match string_from_utf8(copy) {
            Some(text) => Ok(Value::Text(text)),
            None => Ok(Value::Text(String::new())),
        }
    }
}

/// Whether the type `id` is one of those whose values are not plain text.
pub open spec fn is_known(id: u128) -> bool {
    signed_width(id) != 0 || unsigned_width(id) != 0 || id == FLOAT || id == DOUBLE || id == BOOL
        || id == AZ_UUID || id == ASSET || is_singles(id)
}

/// The `width` bytes of the unsigned number `raw`, most significant first.
pub open spec fn unsigned_bytes(raw: int, width: int) -> Seq<u8> {
    if width == 1 {
        seq![raw as u8]
    } else if width == 2 {
        spec_u16_be_bytes(raw as u16)
    } else if width == 4 {
        spec_u32_be_bytes(raw as u32)
    } else {
        spec_u64_be_bytes(raw as u64)
    }
}

/// The smallest number that `width` bytes in two's complement stand for.
pub open spec fn least_signed(width: int) -> int {
    if width == 1 {
        -0x80
    } else if width == 2 {
        -0x8000
    } else if width == 4 {
        -0x8000_0000
    } else {
        -0x8000_0000_0000_0000
    }
}

/// The bytes of a value in an element of the type `id`: those of a number
/// in the width of the type, where the number fits; one byte for a truth
/// value; the bits of a floating-point number; and the UTF-8 bytes of a text
/// where the type is not one of the known types. `None` for any other
/// value, and for a value that does not belong to the type.
pub open spec fn value_bytes(id: u128, value: ValueModel) -> Option<Seq<u8>> {
    match value {
        ValueModel::Signed(v) => {
            let width = signed_width(id);
            if width != 0 && least_signed(width) <= v < -least_signed(width) {
                Some(
                    unsigned_bytes(
                        if v < 0 {
                            v - 2 * least_signed(width)
                        } else {
                            v as int
                        },
                        width,
                    ),
                )
            } else {
                None
            }
        },
        ValueModel::Unsigned(v) => {
            let width = unsigned_width(id);
            if width != 0 && v < -2 * least_signed(width) {
                Some(unsigned_bytes(v as int, width))
            } else {
                None
            }
        },
        ValueModel::Bool(b) => if id == BOOL {
            Some(
                seq![if b {
                    1u8
                } else {
                    0u8
                }],
            )
        } else {
            None
        },
        ValueModel::Single(bits) => if id == FLOAT {
            Some(spec_u32_be_bytes(bits))
        } else {
            None
        },
        ValueModel::Double(bits) => if id == DOUBLE {
            Some(spec_u64_be_bytes(bits))
        } else {
            None
        },
        ValueModel::Text(text) => if !is_known(id) {
            Some(encode_utf8(text))
        } else {
            None
        },
        _ => None,
    }
}

/// The value that is written as bytes is the value that is read from them.
pub proof fn lemma_value_round_trip(id: u128, value: ValueModel, is_json: bool)
    requires
        value_bytes(id, value) is Some,
    ensures
        typed_value(id, value_bytes(id, value)->Some_0, is_json) == Ok::<ValueModel, Error>(value),
{
    let bytes = value_bytes(id, value)->Some_0;
    match value {
        ValueModel::Signed(v) => {
            let width = signed_width(id);
            let raw = if v < 0 {
                v - 2 * least_signed(width)
            } else {
                v as int
            };
            if width == 2 {
                lemma_u16_be_of_bytes(raw as u16);
            } else if width == 4 {
                lemma_u32_be_of_bytes(raw as u32);
            } else if width == 8 {
                lemma_u64_be_of_bytes(raw as u64);
            }
            assert(unsigned_of(bytes, width) == raw);
        },
        ValueModel::Unsigned(v) => {
            let width = unsigned_width(id);
            if width == 2 {
                lemma_u16_be_of_bytes(v as u16);
            } else if width == 4 {
                lemma_u32_be_of_bytes(v as u32);
            } else if width == 8 {
                lemma_u64_be_of_bytes(v as u64);
            }
            assert(unsigned_of(bytes, width) == v);
        },
        ValueModel::Bool(b) => {},
        ValueModel::Single(bits) => {
            lemma_u32_be_of_bytes(bits);
        },
        ValueModel::Double(bits) => {
            lemma_u64_be_of_bytes(bits);
        },
        ValueModel::Text(text) => {
            encode_utf8_valid_utf8(text);
            encode_utf8_decode_utf8(text);
        },
        _ => {},
    }
}

/// Writes the unsigned number `raw` in `width` bytes.
fn write_unsigned(raw: u64, width: usize) -> (r: Vec<u8>)
    requires
        width == 1 || width == 2 || width == 4 || width == 8,
        width == 1 ==> raw < 0x100,
        width == 2 ==> raw < 0x1_0000,
        width == 4 ==> raw < 0x1_0000_0000,
    ensures
        r@ == unsigned_bytes(raw as int, width as int),
{
    let mut out: Vec<u8> = Vec::new();
    if width == 1 {
        out.push(raw as u8);
    } else if width == 2 {
        write_u16_be(&mut out, raw as u16);
    } else if width == 4 {
        write_u32_be(&mut out, raw as u32);
    } else {
        write_u64_be(&mut out, raw);
    }
    assert(out@ =~= unsigned_bytes(raw as int, width as int));
    out
}

/// Whether the type `id` is one of those whose values are not plain text.
fn is_known_type(id: u128) -> (r: bool)
    ensures
        r == is_known(id),
{
    signed_width_of(id) != 0 || unsigned_width_of(id) != 0 || id == FLOAT || id == DOUBLE || id
        == BOOL || id == AZ_UUID || id == ASSET || id == VECTOR2 || id == VECTOR3 || id
        == TRANSFORM || id == COLOR || id == MATRIX3X3
}

/// The bytes of `value` in an element of the type `id`, where the value
/// belongs to the type and can be written.
pub fn data_of_value(id: u128, value: &Value) -> (r: Option<Vec<u8>>)
    ensures
        match r {
            Some(bytes) => value_bytes(id, value@) == Some(bytes@),
            None => value_bytes(id, value@) is None,
        },
{
    match value {
        Value::Signed(v) => {
            let width = signed_width_of(id);
            let v = *v;
            if width == 0 {
                None
            } else if width == 1 {
                if -0x80 <= v && v < 0x80 {
                    Some(
                        write_unsigned(
                            if v < 0 {
                                (v + 0x100) as u64
                            } else {
                                v as u64
                            },
                            1,
                        ),
                    )
                } else {
                    None
                }
            } else if width == 2 {
                if -0x8000 <= v && v < 0x8000 {
                    Some(
                        write_unsigned(
                            if v < 0 {
                                (v + 0x1_0000) as u64
                            } else {
                                v as u64
                            },
                            2,
                        ),
                    )
                } else {
                    None
                }
            } else if width == 4 {
                if -0x8000_0000 <= v && v < 0x8000_0000 {
                    Some(
                        write_unsigned(
                            if v < 0 {
                                (v + 0x1_0000_0000) as u64
                            } else {
                                v as u64
                            },
                            4,
                        ),
                    )
                } else {
                    None
                }
            } else {
                let raw: u64 = if v < 0 {
                    ((v - i64::MIN) as u64) + 0x8000_0000_0000_0000
                } else {
                    v as u64
                };
                Some(write_unsigned(raw, 8))
            }
        },
        Value::Unsigned(v) => {
            let width = unsigned_width_of(id);
            let v = *v;
            if width == 0 {
                None
            } else if width == 1 {
                if v < 0x100 {
                    Some(write_unsigned(v, 1))
                } else {
                    None
                }
            } else if width == 2 {
                if v < 0x1_0000 {
                    Some(write_unsigned(v, 2))
                } else {
                    None
                }
            } else if width == 4 {
                if v < 0x1_0000_0000 {
                    Some(write_unsigned(v, 4))
                } else {
                    None
                }
            } else {
                Some(write_unsigned(v, 8))
            }
        },
        Value::Bool(b) => if id == BOOL {
            let mut out: Vec<u8> = Vec::new();
            out.push(
                if *b {
                    1
                } else {
                    0
                },
            );
            assert(out@ =~= seq![if *b {
                1u8
            } else {
                0u8
            }]);
            Some(out)
        } else {
            None
        },
        Value::Single(bits) => if id == FLOAT {
            let mut out: Vec<u8> = Vec::new();
            write_u32_be(&mut out, *bits);
            assert(out@ =~= spec_u32_be_bytes(*bits));
            Some(out)
        } else {
            None
        },
        Value::Double(bits) => if id == DOUBLE {
            let mut out: Vec<u8> = Vec::new();
            write_u64_be(&mut out, *bits);
            assert(out@ =~= spec_u64_be_bytes(*bits));
            Some(out)
        } else {
            None
        },
        Value::Text(text) => if !is_known_type(id) {
            let mut out: Vec<u8> = Vec::new();
            write_bytes(&mut out, text.as_str().as_bytes());
            assert(out@ =~= encode_utf8(text@));
            Some(out)
        } else {
            None
        },
        _ => None,
    }
}

} // verus!
