# cw1-subkeys

A proxy account with administrators and spending allowances.

Administrators relay any message through the account. Every other account relays
only token transfers, and only within the allowance that an administrator gave
it. Administrators raise and lower allowances, replace the list of
administrators, and can freeze that list.

## Layout

- `src/` is the verified library. It works on plain values: the records
  (`state::Storage`), the answers of the chain's address codec (`api::Api`), the
  messages and the answers (`msg`). `contract` holds the entry points and
  `whitelist` the list of administrators. Each entry point is specified by a
  function from the records and a message to the new records and the answer, such
  as `contract::handle_step`.
- The modules `*_laws` prove what holds of the contract as a whole: nobody spends
  more than was granted, only administrators change allowances, a frozen list
  stays, and more.
- `app/` connects the library to a chain: it reads and writes the storage, asks
  the address codec and encodes the answers.
- `tests/` runs the library, in part beside `cw1_whitelist` on mocked storage.

## What is not proved

Four functions are trusted to do what their contracts say: the decimal form of
`cosmwasm_std::Uint128`, `cosmwasm_std::log`, and `is_admin` and `can_modify` of
`cw1_whitelist::state::AdminList`.

An amount has 128 bits. `contract::can_handle` tells whether a message asks for a
sum that does not fit; such a message must not be handled.
