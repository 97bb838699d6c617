//! Zobrist hashing keys for position deduplication.

use vstd::prelude::*;

use crate::bitboard::Bitboard;
use crate::bits::{bit, lemma_bit_and, lemma_xor_algebra, lemma_xor_shuffle};
use crate::board::{Board, BoardModel};
use crate::color::Color;
use crate::square::Square;

verus! {

/// Number of Zobrist keys: 768 piece-square keys, one side-to-move key,
/// 16 castling keys and 8 en passant file keys.
pub const ZOBRIST_KEY_COUNT: usize = 793;

/// The seed of the key generator ("ZOBRIST!").
pub const SEED: u64 = 0x5a4f_4252_4953_5421;

/// All Zobrist keys, in generation order: `KEYS[i]` is the `(i + 1)`-th output
/// of [`xorshift64`] started from [`SEED`]. Piece-square keys come first
/// (indexed `64 * piece_index + square`), then the side-to-move key (768),
/// the castling keys (769 + rights) and the en passant file keys (785 + file).
pub const KEYS: [u64; 793] = [
    0xb1bca64f6602dac9,
    0x650be658b9594d3c,
    0xf8d19f2f169330a6,
    0xe0af01cb74e8ff47,
    0x8786cc24f9241f79,
    0xf1f2a3db2830a907,
    0x0e63db8454406995,
    0x9aa5f42e19cc2c06,
    0xca9b119158c875de,
    0x7802e543e3b552b5,
    0xbced8ae749d03550,
    0x0f9fead37790c13a,
    0xed7255f8f118ee38,
    0x041a6740f8ce51e4,
    0x71309d87e8193447,
    0xa2ceee5c28d2f7ef,
    0xbcda9416694349c0,
    0x3c9c117b02ddbf53,
    0x904bff799587b0ed,
    0xe6de66e8b8c524cc,
    0xc4708fdbc76e1d85,
    0x15903176692b00fe,
    0x10cedfe6fdd8a97f,
    0x021ec2101cfca7ed,
    0x2bf1562e9cd505e2,
    0xd848449c7ac39769,
    0x29dd7c2e5430ea07,
    0x88de3400cdc4ea13,
    0x6d04d1ac2e298707,
    0x9b5caf282766f5c9,
    0xbf8238cba4e86a62,
    0x0cf67320c09b6236,
    0x5cdcd8edf9601972,
    0x0c52167bf23ac5c0,
    0xebd9f5435341c04b,
    0x2cf107295f88310b,
    0x050fd6b5ee4803a9,
    0x4d72f668a43d59ee,
    0x29cd3f17e0a498dd,
    0xb6397635f80046ac,
    0xf48100cf41766d21,
    0x675146a79cbde9bb,
    0x33ae3dc978999ca8,
    0x8c00c3caf4b88591,
    0x499fd1e23e76b0da,
    0x10c5b27ae7cb2b3b,
    0x517af00ca2f313ad,
    0x2a5158951893beca,
    0xf9a1bf58b7fa6b37,
    0xb63f5627d12bb221,
    0xeaf71f18382b4d05,
    0x695ce67c9e96fadf,
    0x52f269d81c9a80ea,
    0xeec94ca244c8cf6b,
    0xbab5e90ce3f5e435,
    0xbcaa2a03feb7a2bd,
    0xfae4c0952585c2b8,
    0x73e8253f1893673d,
    0xc4e3049973fa2eb3,
    0x305f3e33d61c162e,
    0x3ac51e997f746582,
    0xa20e255247b1adc9,
    0x2c9750a603489cd2,
    0xe8d38a087c25796b,
    0xd9ae35dbd81c0959,
    0xd7a0b74f6793470b,
    0x52df23d3f3e6c345,
    0x99e0fca68adf7f83,
    0x0c35fa6c1c9d41bc,
    0xa0061e8b63bd943f,
    0xdb228d29293600d7,
    0xc52d4aa284d2b916,
    0xbcb8aca3919f99e4,
    0xa62403e1fdc85fd7,
    0x3e54039df28edaa8,
    0x5a3491a76bb26d1d,
    0x31c174935953ee87,
    0x6c61141247fe089a,
    0x7ad6219579f6920b,
    0x30f4be77c73e9def,
    0xc24e5b49c2827b14,
    0x528a5029cb3f3ae2,
    0xf78717ebc815bc17,
    0x2139c0e4483672af,
    0x1ff585afe87b558a,
    0x5ebd7fcec08d81a1,
    0xad87b2216b9cd2e2,
    0x6bacb02a73ad13c7,
    0xa714714fde365820,
    0xca57ffac7e383c90,
    0x5cde6a397e8b68e9,
    0x7e7df0010b416478,
    0x946ac1c804e1f8b0,
    0x006641d6bd021741,
    0x97780b71d44be32f,
    0xac0caf67e72c5f29,
    0x1fd94304b3beedd7,
    0x7a65b769834005cc,
    0xe10e97f36d7076c7,
    0x04c4a97656bbc7ea,
    0xfe056f5279d00ae5,
    0xaf19aed3cf1db3b0,
    0x3aca63acd03764d7,
    0x7ae057f0d768dfde,
    0x93f19f9384c839e1,
    0x70eac5337557f1d2,
    0x4d8142386d196ab1,
    0xe3052e9bde87d424,
    0xb5989d771753528c,
    0x81be9c93e9aad729,
    0x224344372fa768c7,
    0x1f50a0f5aa96f7d6,
    0x1840fc85e5f6efb9,
    0xc6a97c58d63dcc26,
    0xac54809ead1a7e3e,
    0x8b10e9a7939c0542,
    0x30cf25c7e0822dc8,
    0xb9172286bd575b93,
    0xa87167d4ed4171e4,
    0x5e92987e2ef50a07,
    0xc3b1fa4ecd0c81d3,
    0x5a50d4b19bac8c10,
    0x94506e7e202ad108,
    0xb2f38cd001abc6aa,
    0x7d1638e444c27ba7,
    0xf147425f1e81f690,
    0x68a6c4ea9ce9517d,
    0x71e9530fa0957c9f,
    0x3799dc62165491a6,
    0x67261f44f7629105,
    0x9cd0f4ba9ec6b567,
    0xd31a31d98f6081cd,
    0x1060aafad37b938e,
    0x1bdc9be4041a4729,
    0x3f125f9cb1a899e7,
    0x607de99853f95114,
    0x20b510707a4466b6,
    0x51b367f9808983fb,
    0xa3b80c697def0e3c,
    0x305723b28b50df20,
    0xb5f373164ca9b69e,
    0xe9ca60eb78688273,
    0xe76fe814fb98afb7,
    0x414beeec07e29328,
    0xb977a8954d309c0e,
    0xda9fbb2945603eb6,
    0xe0e5f6c56ea5934b,
    0x1dcedf4d2a2f6aad,
    0xae529914a8843f38,
    0x24b2a267d5b1f946,
    0x38df36f85f240b34,
    0xa571f29afbba0e22,
    0x4b782aa30476b2be,
    0x6bc301b3e933305b,
    0x273bde20e5d020fb,
    0x2679950668f8de7a,
    0xc1a2690aa35df146,
    0xfbad85846907db24,
    0x2ee0843ae0639d92,
    0x1116ea6a02a47e29,
    0xf716fd9dc9519c95,
    0x34892453e0eebaec,
    0xadde094612ee5c99,
    0x2134fb12e20f8660,
    0xab1163d1b63e016c,
    0x811d36431623a66e,
    0xdbc62679196fbaa2,
    0x318b98915d498d57,
    0x42a0b82b4b20ab8d,
    0x60d51b3693d9a99a,
    0x9f8ad59145353c49,
    0xdd29963f459b6471,
    0xaad3c0ffecb56ef9,
    0x994e82c2a7209a64,
    0xbe9109837da4c250,
    0xd76930b1b58d1fd4,
    0x0085d4baf78d70eb,
    0xe5d93119aeb730ca,
    0x23f05cb88e692c2b,
    0x2fe9029869dd94b3,
    0xf8dc42465a49635a,
    0x304f7181a6f6671c,
    0xa86812564d65ccd2,
    0x97ec9c61e68073cb,
    0xc78977a148f0e1ec,
    0xa0abf0cbdc3afb2f,
    0x03bbdae9506ba519,
    0x021ce407c4a71413,
    0xd6f524787d9f3efb,
    0xcda6c575b1f8de46,
    0xd27a1d64c3907e7a,
    0xc0cceb93e1cb8006,
    0x880e635469e4d686,
    0x0b846210df847eab,
    0x6ceed4f0e9ddbc96,
    0xe7adb9bf0c2de26f,
    0x892ee68b41d6c26b,
    0xb60d84fdd0f6952f,
    0x33a2923163ddd3c5,
    0x8f4bef1a3e523922,
    0x004e4a88f22495d0,
    0x1c469adaa9a9a8fb,
    0x2663736f095ba56a,
    0x565f657ae44d08a0,
    0x08849e27d6b1bab1,
    0x5206e070a92c5584,
    0x466bf7085185ec2f,
    0xe97ed37285b60c37,
    0x76f13bb2d7668def,
    0x8e1d1a310cbedb34,
    0x36a2b93e4d73eb82,
    0x95a45ab649c9acd5,
    0xf39fb3ff3733aacc,
    0x2e8d746e8ddcfe99,
    0xc83dd4c93a63c124,
    0x06852be5d78fcfa6,
    0x66d26e79f555f9b9,
    0xffaeb39ed4e21c0a,
    0x8e2ff74ba7299ab2,
    0x6d749c0783592507,
    0xf66179d813ac368d,
    0x465d53f415176da0,
    0xc0133c5003a42b7b,
    0xba6f91d1741cdded,
    0x609d80d034523f16,
    0xc38b07f9fa879ee8,
    0x038266480ce22bd5,
    0xade2330c948fbac2,
    0xa7e814fef37e5537,
    0xee3512521311045d,
    0x11c7096b71d79115,
    0x9635f27a961cdb77,
    0x83daab29c16adf01,
    0x0f57cb5d4641eaff,
    0xc174b8823c3c36ea,
    0x3b3f55d2d99ab407,
    0xd9de9cf48d5a60af,
    0x10de70df41911fae,
    0xf8c1629c94821611,
    0x7ee24a35a316b67d,
    0x589c01ce9390a451,
    0xe92364329ca6b159,
    0x7f3c71f812ee8a7b,
    0x1a64650fdb78a9af,
    0xbd500affa9a9d33c,
    0x7d1dede699ddcf9a,
    0x3861487d3f64d285,
    0x75d13eb2b2be1a60,
    0x9eca101747b9fe54,
    0x0f52181689d398a8,
    0x9db52ed888011599,
    0xff50d469b80351f2,
    0x55485b9dd63b6bd1,
    0x73b78af79cbbc946,
    0xd4c8e3227af02f54,
    0x2374faedb3f09a0a,
    0x814411ebf48cb9be,
    0x3836b35c89e60f4d,
    0xdfc8891be8b9b013,
    0x88bfade98860a7b3,
    0x4e40368383d7ea3c,
    0x84e87eae19bd4ae8,
    0x07eec1e1977b8a7d,
    0x73bca1187faa4229,
    0xc5314ab1945abced,
    0x802ada4b93e892d4,
    0x0418b604015376f1,
    0x1e79e0e6abea4c5c,
    0xddc054baca2d0fc4,
    0x913089e0dcb424db,
    0x97a9e26c803b1a52,
    0xdfadd3e0457bb8e6,
    0x94e920fec02db617,
    0x9b82150f917488bb,
    0x994f24291cb72f6a,
    0x5a509ee131c0dbb4,
    0x0a4e906ef6e53703,
    0x49ada1658fff5dad,
    0xd90cb3bf802e6856,
    0x259fc640fbb2e106,
    0x31e4e33ec0550544,
    0xd65c2d3af4a07e4e,
    0x59cfc8777cfb6d32,
    0xeacf2758efaf9768,
    0xeb88fc2863f41246,
    0x228973491bbbabe2,
    0x2dc5b4aada706435,
    0x0610708d4c2129bd,
    0xbd672d323298a4ae,
    0x8b1f2135188f7e67,
    0x8da68c7a8c1b195b,
    0x4015b79e2fbc19a9,
    0x8a11412d28642bda,
    0xb8a35163445f550d,
    0x9c1cd8dd6e6d08e7,
    0xf0fca624f8830b36,
    0xf67da8eaf19600a0,
    0x2d8d34f788a304a1,
    0x4ed5bda6ba374ae8,
    0xa8f88facaf369e7d,
    0xb882d07f7002cc01,
    0xab4f8ba00463e9d9,
    0xa2fbbf6ed13e784a,
    0x47bb5195207f563a,
    0xe131182b33016616,
    0xeedf054fcb48215a,
    0x2dd71425cdcda798,
    0xdb43895ef462dad7,
    0xa5c693b19f224aa2,
    0xf5753aa0b0b4e6b7,
    0x8f5bee9ac54ec2ba,
    0xbdd35118185db1bf,
    0xb330a0da830e851c,
    0xe8d1ed4e9b265f16,
    0x487ec69c28351628,
    0xa3b766d653edf604,
    0xa016021ce3272ce8,
    0x0a1cd82a47d558b1,
    0xd7d939c4b19afe40,
    0x28506fb4b6f65bbc,
    0x4cdce66d196cd80b,
    0x1e256118c59f637b,
    0x59d28a1fb959e37d,
    0xb71d87b6b3ca2ffb,
    0x093c54de23112564,
    0x3d9a20f8c3eede2e,
    0x1c9e16c2823f4812,
    0x4bea09de85ef7202,
    0xff67202175b46c66,
    0x8a40671b6db4dd3e,
    0x1edf1746dbf73b04,
    0xba8f3a7d640a9472,
    0x72d88a02755dddda,
    0x891ecfd63cb950e1,
    0xd0e6e941e0883a00,
    0x9c21c4f512efaa74,
    0x953d74b9662e6820,
    0x2245a8342b9c3cf0,
    0xc057eda952483889,
    0x39462988c083aab8,
    0x4278d685836503ed,
    0x3450d499d40a92aa,
    0xfd1707626d4d6d0f,
    0x657c1284ff475415,
    0x4e0f4faa32147ffd,
    0x5d4324db7c140842,
    0xce356603af4270d2,
    0x91a894f937fc80b3,
    0x38f48828c0413572,
    0x4ea33d45f012ab98,
    0x01dbc017fbb568cf,
    0x6315a51c37bdd1de,
    0x4941fa9661671dfd,
    0x5750ff6deed10c86,
    0x3849798c3ee14f1f,
    0x080f61f5e3aeaa41,
    0x998fd32db8214755,
    0x02ee373522dc709b,
    0xc11061656ce28eba,
    0xa6672bff8501a527,
    0x964cf765119c0fad,
    0x23496f6ec4ad7cf2,
    0xf390c55e28f35a8b,
    0x066cf00a3ed97efe,
    0x40200af7d422b383,
    0x5adac73f891e7624,
    0x9ad9b2daf8c543c8,
    0x7de84023a2833b4f,
    0xad31a8d93f930ef9,
    0x2d70cbd465b8b6a4,
    0x93b938f86818eec9,
    0x46ee7fc419824d54,
    0x2a1fa01c81149cce,
    0xcf1cd50ee2464677,
    0xb3bf3eefc8abb73b,
    0x50209415d61a4e95,
    0x97310f65cc677f48,
    0xacb9ee1636a563b6,
    0x2d7fe15f160404f1,
    0x87c7f8f688c710b8,
    0x4f53f7b6d737b099,
    0xffd365c73216d9b8,
    0x3b489165d6e59a0b,
    0xeeeacd317091b3ff,
    0x43e87a221ed38f58,
    0x8f225e46636afe46,
    0x4b7d92b99eaf7a3a,
    0x1085a6397d97ea4e,
    0xbc3b2327bbeb961a,
    0x0e0b928773d687b6,
    0xe8ab7ac856140739,
    0xaf28125741b0c177,
    0xd31309cfa1471d35,
    0xe377b0d470fa7e4f,
    0xdc2ab62d5babf973,
    0x0d3feafbb04e9241,
    0x4a17504ef888bf25,
    0xc5dc1324de84c71b,
    0xb4fca4337e416855,
    0x5ce375b61a675fc5,
    0x091f156e8408c03a,
    0xaaad260b7d439f3a,
    0x2c10004365b19684,
    0x941927b3149dd4a9,
    0x86db450325d4e540,
    0x405243e6f31a1c8a,
    0x8943b76a2f8c4a33,
    0xa0ac8c71ed49be67,
    0xd83622dbc28654db,
    0x1c29bc2403690eb2,
    0xe79907c5d0a4302f,
    0x3bba96b3d312938f,
    0x03ae71cb48b1b568,
    0xa1d5bf2ddce48c02,
    0xdf6c3b4424ca059a,
    0x35f10bc1b093b711,
    0x4bf0ec528983743f,
    0xc6e60d8d18e49d17,
    0x04c0516d4b8af1ed,
    0x492878d453003f4e,
    0x681cefd165202cb0,
    0xe9ea1a1d0ba540e9,
    0x7bc209e150af1028,
    0x85ed682dd3df4408,
    0x2f5c2da36628f880,
    0x8874fa71a7288971,
    0x610785dcd72ca423,
    0x5e9105581a7995ab,
    0x9af07f21de1d6c40,
    0x4ce9028f3a424698,
    0x44786ce4345e6415,
    0x0e016de1dc177d9d,
    0x7a65c748dd8f9426,
    0x49887fea5849428e,
    0xfbecb37bd1eeb38b,
    0xf0f1d9f553c8ec2c,
    0x108e40c8bb39f6f4,
    0x2b27ccd9aadeb819,
    0xd3fb723d3f742329,
    0xe43794b65e39212f,
    0x2d132c1e69b2f8ad,
    0xc9d50d7e4af2161c,
    0x0bfaa1eba241f530,
    0xeb69edb4ae6a3ada,
    0x5a60f34f2abd182f,
    0x4ce87563ab1589df,
    0x52c2b8357202350c,
    0x397c23cc3a06f266,
    0xe3f454c0b186a602,
    0x5d55916d52106bce,
    0x7814c8f7f0e57899,
    0xa5c53015e119b428,
    0x059d7749a0b38d40,
    0xfd9076aa1a0dba5a,
    0x8da34bb8954077ae,
    0x065884a70300dcc1,
    0xeefcd15d0cd9cd38,
    0xc871ac0fd85030a2,
    0x935c1c5a257ef843,
    0xfc7ed540fb647573,
    0xe9eb3dfb2f938159,
    0x6e3a6ab6ed31d01b,
    0xffd783475c6ad57b,
    0x2397338beeea3e11,
    0xc1f98a3e98204e2d,
    0xba4eec04af2425f1,
    0xad263289883931fa,
    0xb0b28b3d49687d19,
    0xf0be44d9f100cba3,
    0x584d07449e4c42f4,
    0x461cc7d9c2dce771,
    0xbfa085601f70a2ff,
    0x9154b1f12fcd1c7a,
    0x85257b952cded8c2,
    0xc966a5e0c1cf15f3,
    0x0ca42acdbf079718,
    0x44c048e9ab135e36,
    0xc3a769d8bd40350a,
    0xa3d9f3a13556b7e0,
    0x81d5667a3173e28f,
    0x0569df6468ac468a,
    0x8f525faefab3fc87,
    0x5adc27abc1555abe,
    0xc5e9dc9357c09f8b,
    0x7d886474aa519c74,
    0x885d3505a074a24c,
    0xdab23ea392455808,
    0x9cb95e1f4e46d0b8,
    0x3364344add4b7319,
    0xdefe5da0733003bf,
    0x9ba3382327516c78,
    0xd9bf23e7398bd0a0,
    0xbb079d6e311aef01,
    0x57cce3bd831d3a9f,
    0x80df15751652472a,
    0xcb1514c4f2426924,
    0x4a6ddda9eff424f6,
    0x5314daefa7c2313f,
    0xb14e2007fb1c1a9d,
    0xf01123a4fb6f25e8,
    0x3aac6c6b8eab81a3,
    0x094459403fa2de60,
    0x8f7a9f450b1e03dc,
    0xe99e17bc174548db,
    0xa7c3683b3e36948a,
    0xc495a91f21389b23,
    0x3211a5d2c79242d5,
    0x5313377428f77310,
    0xa78a6f3ea0f459f6,
    0x2b15b76c72170cc5,
    0x0e7a540da990b39c,
    0x698997c42b6af5fb,
    0xbadfbef05a9e3ed0,
    0x200a0235b724b6ad,
    0x3bfd2add6ab2f480,
    0x0a938e114098b169,
    0x713ba17fa68efa4b,
    0xff14376d0fca157f,
    0xb278ae4718d53e95,
    0xfd712534272991a8,
    0xc54160ffe620a88b,
    0xaa8b28acd2e3ab1a,
    0xd12b020a9357eacc,
    0xb989d96442e07619,
    0xb49462ec1dd110b5,
    0xdd9155e4ec103fd4,
    0xd12fdf8cf36b6aab,
    0xd04f4766b07e76be,
    0x94458ee267f2e5d3,
    0xc6e2f7e42a8e14d8,
    0x058f49dafe273ef1,
    0x110935a7fc52eccc,
    0x54a144a80ea2fa15,
    0x27217f719c019aa1,
    0xac0e4a7e6fa311d4,
    0x6c8137805c6ca2f7,
    0xf60e79319f462672,
    0x0dc3c832044376be,
    0x737a3f2821e79fd3,
    0x3e33f21173e1c42c,
    0x3f5a1c3088ba8ca4,
    0x165e980537e650bd,
    0xc1dc9e9028b2135c,
    0x5fc84aa926f8207a,
    0xff65c9cfd3c68eba,
    0x517053fbb65bed27,
    0x2d4c6fab4c12f33d,
    0x49b2f4863367b99b,
    0xfa125537f18c7028,
    0x357524bcb6e662c8,
    0x7ec8039082501c0d,
    0xb1bd0e590a381f75,
    0x96d6a8ca11d3120b,
    0xa90353cf3eab56ef,
    0x401880ced7da5b82,
    0xe1a2b7a768f94fb5,
    0x5a229516d159f06a,
    0x97d666b7a69e190a,
    0x7d37c9a8e20427b8,
    0x258dbc3e35d0c1f7,
    0x4fcc251adeddfdb4,
    0x8a80676fb537ab4f,
    0x12b4ef573d6cf7d9,
    0xe796194aa63cf876,
    0x42da75969b4c5c06,
    0xe315aa68e491053e,
    0x59da64ea60d6a8b4,
    0x582f0ff60561a8e5,
    0x612b64ff61f5f2f4,
    0xce0f59f814362411,
    0x52ea61e2f5276c19,
    0x389aba129d970481,
    0xdfe12389686d2ac8,
    0xa754a7c54194429d,
    0x9c1b1b40fce46d58,
    0x3b26718e2ea9f382,
    0xc29ad6c3a73200e5,
    0xd7b17ea057a8fda4,
    0x84ee7ba56832455f,
    0x8d112ebf4af29615,
    0x3d4afe6e76f25679,
    0x1fe0865b456f0c95,
    0x7d632a43e62c57cc,
    0x184dc03398ca7c63,
    0xe992219da25e905b,
    0x01016f976bc35bbb,
    0xe77fd880792d53cc,
    0x0c4239ee6c247a6b,
    0x5ced66dda611c85f,
    0x8ea1fff3983a1c0f,
    0xd7e757f425e28bf7,
    0xfcbe280442355320,
    0x83c906018e8df186,
    0xe930040707164be5,
    0xe23b8ec079923e32,
    0x1f27f2a077b4d6ce,
    0xd7ed9ac1d971cce3,
    0xf124b4f4d05877ba,
    0xd2311886f2b869d5,
    0xfa7b3da7c4f1cc46,
    0x299347b4723ffe5e,
    0x4527d7bfc6abd622,
    0xa0c75d1afb0b490e,
    0xdf0c0062dd36dc1c,
    0xe9594603e3f036a4,
    0xd00835d4e17cffc9,
    0x4e4edc592094d476,
    0x739829676dd2205e,
    0x2cf08a4034b6539e,
    0xc65d5bbf624a18b9,
    0xa8c378a6c88f82c8,
    0xdbb0a3ba093d2fcd,
    0x14e942629a3906d2,
    0x8ad3b82af128805f,
    0x6baab601b3df269f,
    0x97e5123f1d86df12,
    0x5d1007bc75b0562c,
    0xd16c910e108b3d80,
    0xd0b95a13de234bfb,
    0x5524e7f13f6a93ac,
    0x2371de160ed32d8b,
    0xeb659e9ae1948910,
    0x065def82e853e402,
    0x6901e219836e034a,
    0xfa4900d230194dcc,
    0x1b5e977ba33d8c57,
    0xc996d5fe2f8c028f,
    0x9750232b0216594a,
    0xc1cd1cb5d45d6778,
    0x407b19f4032f03b6,
    0x0646939c20fd7031,
    0x2ec46e61c4c4a691,
    0x2ee70339f58eab9c,
    0xb4fb5c8a932ad1cb,
    0x6b30f7f13bd196a8,
    0xef717307201c9f85,
    0xa8c6c13d757fe7fa,
    0x2a9bf46ae1f9a6b5,
    0x5eb4780fcff558b8,
    0x05f3e6a5be399c09,
    0x46558e87d241cd71,
    0x0a269656116e32ab,
    0xc0fbcdf96889240e,
    0x6a655008771cf5c6,
    0xed48eab8c52d7dad,
    0x6a0d6d628861ec16,
    0x3a02af07bc14ea4e,
    0x5755ca0b0b2b901a,
    0xebb9c98da6ae81ba,
    0x0868e14b2206f239,
    0x186ad1734883519d,
    0x20e7f8f8c409907e,
    0xfd351a6dbc565cde,
    0xe7bd2ef8b6ec07e7,
    0xba4c04acf02cc628,
    0x69945dec117015a4,
    0xfb16a3bbaefd1c8f,
    0x04ae9f248f9a2576,
    0xe370538f7dda8cbc,
    0x964b3767695f96a5,
    0xdab69080432c20c8,
    0xa31fcca299a94a89,
    0x4b6fb79bab219a5c,
    0x4a1335cffb8ace68,
    0x12a4212d5ceb41f4,
    0x84e620dd80526a77,
    0x9790aefb0440b363,
    0x2094b9fee1828ac5,
    0xd0ce6872109b9e90,
    0x4990e92bbad50dad,
    0xbe8707e120ba6cf6,
    0xf5a4d64c4aa0e5af,
    0x64ff48d439f12fa4,
    0x8415940e81cba4fb,
    0xef8659c3405a6d72,
    0xbfa0767417bfc528,
    0xe2d9f8e30980f0a2,
    0xf9bf7197823d99c3,
    0x2205b81c7507f230,
    0xe18fde7f11ff71d4,
    0x6204404c8a547a37,
    0x7e91d895771ebf03,
    0xa43cebe408c522bd,
    0xed6041be1abba7b8,
    0xbf4454ccc17e3ef7,
    0xdb43f621fe399f4a,
    0x2826c6e3fda37ef4,
    0x69513697374b0509,
    0xe0a1815549c3f143,
    0xad51e53561464661,
    0xdfcb823d778372ad,
    0xc7fa335e7df57f08,
    0x3ea0f879bc5c57f6,
    0x013735f2777dd2d9,
    0x3591849288c4bf3c,
    0xa14bc41bf9997942,
    0x8cc62466317c5b30,
    0xa7c02551f6626f86,
    0x3d79ce6195578ad9,
    0x2ad972bb95dcb38c,
    0x3c871b54d07c69eb,
    0x6ae18daefc0b8bf8,
    0xaef55e5717b062ef,
    0x8285706cea0e59ea,
    0xd53f0a1584c37fd9,
    0xb7e4a024ae222f66,
    0xc8b1a1b9cf6972b8,
    0xd7b7049c54460e5d,
    0xb95bbe45d6a4b501,
    0x8a3ee7915ad29c2b,
    0xfcc46bd838e353d3,
    0x5567a665d95401b4,
    0x3603c4d54ebe44b7,
    0xf1b5599168d8f5fe,
    0xaef4bf7495a1fb95,
    0x0a5e4e96d1c2fd22,
    0xd9042b7333ca7058,
    0x6ff24be58c4af2b8,
    0xe9f3f0eb9903c95d,
    0x2b59b11c04f6398f,
    0x968349616a38563c,
    0x8b8c62927f1e2990,
    0x2587239bbade71c3,
    0xb8a454764fcfdde0,
    0xa3279e82dfad3a5b,
    0x05ad06d2bbc996ef,
    0xda2c030462025e02,
    0x764d557995ed9a3e,
    0x9b4cfec5b3f30e8a,
    0xc4c82b26b1a80a17,
    0x89fc8bffe80d3fc3,
    0xf89516c6d992b57c,
    0xf6279a29f80f4f16,
    0xc5ace3fee9de5408,
    0x6811ca8b7c59eaa0,
    0x1976a755a365f175,
    0x9a39f5fce0dfc7d7,
    0x6fa6c91e0d256d98,
    0xb2bfa90557514143,
    0x3cc17ee70785d301,
    0x596c8017e35038e7,
    0x89f69f8d9d284156,
    0x1e52aa21cc808454,
    0x36adc1f29f0a105c,
    0xe5e14040dc43937c,
    0xde8cf79fa9c44b5a,
    0xb9bb217ec476554c,
    0x7c280d873b0e6ae6,
    0xcb05ac4f24d80fb3,
    0xdefa4a8debbc336c,
    0xd6af9201b91e100a,
    0xd07605bae2bd6eaa,
    0xa65df0b36818fef7,
    0x0d6d24d832bd92ca,
    0x3530f100a93b1b6f,
    0xa099ce6b28f05699,
    0x9c2192eda88f3074,
    0x1047b38ad034b314,
    0xef4439ea603e9f72,
    0x66a55668952f7ecc,
    0xe5795442c6611331,
    0x13411d0983613d57,
    0xeaff323bfa584aed,
    0x7775182dd093e138,
    0x532fe4a0c21988fa,
    0xb8d0e2dbbe36c56b,
    0xa1ac3a9a78149221,
    0x30553c7bfd0e1345,
    0x784ee16d775e7e23,
    0xb718e2cfe1d52a1f,
    0x9386c0f76109e78b,
    0x7210fe091c4b7684,
    0x917c9ac6f0acc169,
    0x1a9590fb0b06e2ab,
    0x612a2582aba125ae,
    0xadff8002fac0cc65,
    0x1c8c8df1bff0f4bd,
    0x32dfa3308a0d9a14,
    0x451f776ed37d8420,
    0x3a138a278f6e7728,
    0xe1ba7f2d168461c6,
    0x6b8fa155d083d885,
    0x3c7c10fb9c2c5e74,
    0xf46e7222dc5d1bc8,
    0xc1aa264e8a2453ff,
    0xe5a118521d6b0498,
    0xddb70b4f6a21f491,
    0x8b29dff2246ab338,
    0xd9252d9adc55a85e,
    0xc997c9e5e090d48e,
    0x76f208f638bb16a7,
    0x1b7e27c8ca4f294a,
    0xbfc06a8d6608a598
];

/// One step of the xorshift64 generator.
pub open spec fn xorshift_step(x: u64) -> u64 {
    let a = x ^ (x << 13u64);
    let b = a ^ (a >> 7u64);
    b ^ (b << 17u64)
}

/// Xorshift64 PRNG. Returns (value, next_state), which are equal.
pub fn xorshift64(state: u64) -> (r: (u64, u64))
    ensures
        r.0 == xorshift_step(state),
        r.1 == xorshift_step(state),
{
    let mut s = state;
    s = s ^ (s << 13u64);
    s = s ^ (s >> 7u64);
    s = s ^ (s << 17u64);
    (s, s)
}

/// Whether piece index `p` (6 * color + kind) stands on square `s`.
pub open spec fn present(pieces: Seq<u64>, sides: Seq<u64>, p: int, s: int) -> bool {
    bit(pieces[p % 6] & sides[p / 6], s)
}

/// The key of piece index `p` on square `s`.
pub open spec fn piece_square_key(p: int, s: int) -> u64 {
    KEYS@[64 * p + s]
}

/// XOR of the keys of the pieces with index below `p` standing on `s`.
pub open spec fn square_hash(pieces: Seq<u64>, sides: Seq<u64>, s: int, p: int) -> u64
    decreases p,
{
    if p <= 0 {
        0
    } else {
        square_hash(pieces, sides, s, p - 1) ^ (if present(pieces, sides, p - 1, s) {
            piece_square_key(p - 1, s)
        } else {
            0u64
        })
    }
}

/// XOR of the piece keys of the squares below `n`.
pub open spec fn placement_hash(pieces: Seq<u64>, sides: Seq<u64>, n: int) -> u64
    decreases n,
{
    if n <= 0 {
        0
    } else {
        placement_hash(pieces, sides, n - 1) ^ square_hash(pieces, sides, n - 1, 12)
    }
}

/// Square `s` holds exactly the piece of index `p` (6 * color + kind), or
/// nothing when `p` is 12: the kind and side bitboards agree on it.
pub open spec fn square_holds(pieces: Seq<u64>, sides: Seq<u64>, s: int, p: int) -> bool {
    &&& forall|j: int| 0 <= j < 6 ==> bit(#[trigger] pieces[j], s) == (p < 12 && j == p % 6)
    &&& forall|i: int| 0 <= i < 2 ==> bit(#[trigger] sides[i], s) == (p < 12 && i == p / 6)
}

/// On a square holding exactly piece `p`, piece index `q` is present iff it is `p`.
proof fn lemma_present_holds(pieces: Seq<u64>, sides: Seq<u64>, s: int, p: int, q: int)
    requires
        pieces.len() == 6,
        sides.len() == 2,
        0 <= p <= 12,
        0 <= q < 12,
        square_holds(pieces, sides, s, p),
    ensures
        present(pieces, sides, q, s) == (q == p),
{
    lemma_bit_and(pieces[q % 6], sides[q / 6], s);
    assert(bit(pieces[q % 6], s) == (p < 12 && q % 6 == p % 6));
    assert(bit(sides[q / 6], s) == (p < 12 && q / 6 == p / 6));
}

/// The square hash of a square holding exactly piece `p` is that piece's key.
pub proof fn lemma_square_hash_holds(pieces: Seq<u64>, sides: Seq<u64>, s: int, p: int, n: int)
    requires
        pieces.len() == 6,
        sides.len() == 2,
        0 <= p <= 12,
        0 <= n <= 12,
        square_holds(pieces, sides, s, p),
    ensures
        square_hash(pieces, sides, s, n) == if p < n { piece_square_key(p, s) } else { 0u64 },
    decreases n,
{
    if n > 0 {
        lemma_square_hash_holds(pieces, sides, s, p, n - 1);
        lemma_present_holds(pieces, sides, s, p, n - 1);
        lemma_xor_algebra(square_hash(pieces, sides, s, n - 1), 0, 0);
        lemma_xor_shuffle(piece_square_key(p, s), 0, 0, 0, 0);
    }
}

/// Square hashes agree where the same pieces are present.
pub proof fn lemma_square_hash_same(pieces: Seq<u64>, sides: Seq<u64>, pieces2: Seq<u64>, sides2: Seq<u64>, s: int, n: int)
    requires
        forall|q: int| 0 <= q < n ==> #[trigger] present(pieces, sides, q, s) == present(pieces2, sides2, q, s),
    ensures
        square_hash(pieces, sides, s, n) == square_hash(pieces2, sides2, s, n),
    decreases n,
{
    if n > 0 {
        lemma_square_hash_same(pieces, sides, pieces2, sides2, s, n - 1);
        assert(present(pieces, sides, n - 1, s) == present(pieces2, sides2, n - 1, s));
    }
}

/// Where only square `s` changes, the placement hash changes by the XOR of
/// that square's old and new hashes.
pub proof fn lemma_placement_hash_one_square(pieces: Seq<u64>, sides: Seq<u64>, pieces2: Seq<u64>, sides2: Seq<u64>, s: int, n: int)
    requires
        0 <= s < 64,
        0 <= n <= 64,
        forall|t: int| 0 <= t < 64 && t != s ==> #[trigger] square_hash(pieces, sides, t, 12) == square_hash(pieces2, sides2, t, 12),
    ensures
        placement_hash(pieces2, sides2, n) == placement_hash(pieces, sides, n) ^ (if s < n {
            square_hash(pieces, sides, s, 12) ^ square_hash(pieces2, sides2, s, 12)
        } else {
            0u64
        }),
    decreases n,
{
    let d = square_hash(pieces, sides, s, 12) ^ square_hash(pieces2, sides2, s, 12);
    if n > 0 {
        lemma_placement_hash_one_square(pieces, sides, pieces2, sides2, s, n - 1);
        let a = placement_hash(pieces, sides, n - 1);
        let b = square_hash(pieces, sides, n - 1, 12);
        if n - 1 == s {
            lemma_xor_algebra(a, 0, 0);
            lemma_xor_shuffle(a, b, square_hash(pieces2, sides2, s, 12), 0, 0);
        } else {
            assert(square_hash(pieces, sides, n - 1, 12) == square_hash(pieces2, sides2, n - 1, 12));
            if s < n - 1 {
                lemma_xor_shuffle(a, b, d, 0, 0);
            } else {
                lemma_xor_algebra(a, 0, 0);
                lemma_xor_algebra(a ^ b, 0, 0);
            }
        }
    } else {
        lemma_xor_algebra(0, 0, 0);
    }
}

/// Whether piece index `p` (6 * color + kind) belongs to key group `g`:
/// 0 the pawns, 1 White's other pieces, 2 Black's other pieces, 3 the rooks
/// and queens, 4 the knights and bishops.
pub open spec fn in_group(g: int, p: int) -> bool {
    let k = p % 6;
    let c = p / 6;
    if g == 0 {
        k == 0
    } else if g == 1 {
        c == 0 && k != 0
    } else if g == 2 {
        c == 1 && k != 0
    } else if g == 3 {
        k == 3 || k == 4
    } else {
        k == 1 || k == 2
    }
}

/// XOR of the keys of piece index `p` on the squares below `n` where it stands.
pub open spec fn piece_keys(pieces: Seq<u64>, sides: Seq<u64>, p: int, n: int) -> u64
    decreases n,
{
    if n <= 0 {
        0
    } else {
        piece_keys(pieces, sides, p, n - 1) ^ (if present(pieces, sides, p, n - 1) {
            piece_square_key(p, n - 1)
        } else {
            0u64
        })
    }
}

/// XOR of the piece keys of the piece indices below `q` in group `g`.
pub open spec fn group_keys(pieces: Seq<u64>, sides: Seq<u64>, g: int, q: int) -> u64
    decreases q,
{
    if q <= 0 {
        0
    } else {
        group_keys(pieces, sides, g, q - 1) ^ (if in_group(g, q - 1) {
            piece_keys(pieces, sides, q - 1, 64)
        } else {
            0u64
        })
    }
}

fn in_group_exec(g: u8, p: usize) -> (r: bool)
    requires
        p < 12,
    ensures
        r == in_group(g as int, p as int),
{
    let k = p % 6;
    let c = p / 6;
    if g == 0 {
        k == 0
    } else if g == 1 {
        c == 0 && k != 0
    } else if g == 2 {
        c == 1 && k != 0
    } else if g == 3 {
        k == 3 || k == 4
    } else {
        k == 1 || k == 2
    }
}

/// The XOR of the keys of the pieces in group `g`.
fn group_hash(board: &Board, g: u8) -> (r: u64)
    ensures
        r == group_keys(board.view().pieces, board.view().sides, g as int, 12),
{
    let ghost m = board.view();
    let mut h: u64 = 0;
    let mut p: usize = 0;
    while p < 12
        invariant
            p <= 12,
            m == board.view(),
            h == group_keys(m.pieces, m.sides, g as int, p as int),
        decreases 12 - p,
    {
        if in_group_exec(g, p) {
            let bb = board.pieces_by_index(p % 6).inner() & board.side_by_index(p / 6).inner();
            let mut acc: u64 = 0;
            let mut s: usize = 0;
            while s < 64
                invariant
                    p < 12,
                    s <= 64,
                    m == board.view(),
                    bb == m.pieces[p as int % 6] & m.sides[p as int / 6],
                    acc == piece_keys(m.pieces, m.sides, p as int, s as int),
                decreases 64 - s,
            {
                if (bb >> (s as u64)) & 1u64 == 1u64 {
                    acc = acc ^ KEYS[64 * p + s];
                } else {
                    proof {
                        lemma_xor_algebra(acc, 0, 0);
                    }
                }
                s = s + 1;
            }
            h = h ^ acc;
        } else {
            proof {
                lemma_xor_algebra(h, 0, 0);
            }
        }
        p = p + 1;
    }
    h
}

impl Board {
    /// The XOR of the keys of all pawns.
    pub fn pawn_hash(&self) -> (r: u64)
        ensures
            r == group_keys(self.view().pieces, self.view().sides, 0, 12),
    {
        group_hash(self, 0)
    }

    /// The XOR of the keys of the pieces of `color` other than pawns.
    pub fn non_pawn_hash(&self, color: Color) -> (r: u64)
        ensures
            r == group_keys(self.view().pieces, self.view().sides, 1 + color.idx(), 12),
    {
        match color {
            Color::White => group_hash(self, 1),
            Color::Black => group_hash(self, 2),
        }
    }

    /// The XOR of the keys of all rooks and queens.
    pub fn major_hash(&self) -> (r: u64)
        ensures
            r == group_keys(self.view().pieces, self.view().sides, 3, 12),
    {
        group_hash(self, 3)
    }

    /// The XOR of the keys of all knights and bishops.
    pub fn minor_hash(&self) -> (r: u64)
        ensures
            r == group_keys(self.view().pieces, self.view().sides, 4, 12),
    {
        group_hash(self, 4)
    }
}

/// The key of the side to move (nothing for White).
pub open spec fn side_key(c: Color) -> u64 {
    if c == Color::Black { KEYS@[768] } else { 0u64 }
}

/// The key of the en passant target's file (nothing without one).
pub open spec fn ep_key(ep: Option<int>) -> u64 {
    match ep {
        Some(e) => KEYS@[785 + e % 8],
        None => 0u64,
    }
}

/// The Zobrist hash of a position: the XOR of the keys of every piece on
/// its square, the side-to-move key, the key of the castling rights and
/// the key of the en passant file.
pub open spec fn zobrist_hash(m: BoardModel) -> u64 {
    placement_hash(m.pieces, m.sides, 64) ^ side_key(m.side_to_move) ^ KEYS@[769 + m.castling] ^ ep_key(m.en_passant)
}

/// Compute a Zobrist hash from scratch for the given board.
pub fn hash_from_scratch(board: &Board) -> (r: u64)
    ensures
        r == zobrist_hash(board.view()),
{
    let ghost m = board.view();
    let mut hash: u64 = 0;
    let mut s: usize = 0;
    while s < 64
        invariant
            s <= 64,
            m == board.view(),
            hash == placement_hash(m.pieces, m.sides, s as int),
        decreases 64 - s,
    {
        let sq = Square::from_index_unchecked(s as u8);
        let mut p: usize = 0;
        proof {
            lemma_xor_algebra(hash, 0, 0);
        }
        while p < 12
            invariant
                s < 64,
                p <= 12,
                sq.view() == s,
                m == board.view(),
                hash == placement_hash(m.pieces, m.sides, s as int) ^ square_hash(m.pieces, m.sides, s as int, p as int),
            decreases 12 - p,
        {
            let bb = Bitboard::new(board.pieces_by_index(p % 6).inner() & board.side_by_index(p / 6).inner());
            if bb.contains(sq) {
                proof {
                    lemma_xor_algebra(placement_hash(m.pieces, m.sides, s as int), square_hash(m.pieces, m.sides, s as int, p as int), piece_square_key(p as int, s as int));
                }
                hash = hash ^ KEYS[64 * p + s];
            } else {
                proof {
                    lemma_xor_algebra(square_hash(m.pieces, m.sides, s as int, p as int), 0, 0);
                }
            }
            p = p + 1;
        }
        s = s + 1;
    }
    if board.side_to_move() == Color::Black {
        hash = hash ^ KEYS[768];
    } else {
        proof {
            lemma_xor_algebra(hash, 0, 0);
        }
    }
    let c = board.castling().bits() as usize;
    hash = hash ^ KEYS[769 + c];
    match board.en_passant() {
        Some(ep) => {
            hash = hash ^ KEYS[785 + ep.file().index()];
        },
        None => {
            proof {
                lemma_xor_algebra(hash, 0, 0);
            }
        },
    }
    hash
}

} // verus!
