# muzica

Verified core of Muzica, an on-chain music-royalty protocol: tracks with a
contributor/share table in basis points, an escrow whose balance is split
among contributors, a fixed-price marketplace for stem NFTs, and a quadratic
bonding curve (`base_price + k * s^2`) that prices each track's share tokens.

- `src/` is the library, proved with Verus: every check, split, price and
  state change of the protocol, stated as contracts over the account models.
  - `curve`: spot price, buy cost and sell refund, with the laws that relate
    them.
  - `track`: registration, share updates, stems, escrow checks and the
    pro-rata split of escrowed tokens.
  - `market`: marketplace configuration, listings, sales and fee withdrawal.
  - `trading`: buying and selling along the curve, and NFTs at curve price.
  - `seeds`, `address`, `error`, `ata`: signer seeds, 32-byte addresses,
    error codes, and the associated-token-account derivation.
- `app/` is the Solana program built with Anchor: account validation,
  token and lamport transfers, events, and the conversions between the stored
  accounts and the library's types.
- `tests/` exercises the library on concrete values.
