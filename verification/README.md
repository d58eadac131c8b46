# Quorum credit

A lending contract in which the stakes of vouchers stand behind a borrower,
written and verified with Verus.

`src/` holds the rules of the contract as functions on a plain ledger. Each
entry point (`request_loan`, `repay`, `refinance_loan`, `register_referral`,
`add_co_borrower`, `deposit_collateral`, and the reading ones) changes the
ledger and returns the transfers, events and mints that the host carries out.
A call that cannot go through is either answered with an error or aborted;
beside each entry point a `check_` function says which, and the entry point
itself is to be called only when the call is not aborted.

- `types`, `ledger`, `table`: what is stored, received and handed back
- `arith`, `vouches`: truncating 128-bit arithmetic, stakes and shares
- `request`, `repay`, `refinance`, `referral`, `co_borrowers`, `collateral`,
  `queries`: the entry points, gathered in `loan`
- `consistency`: what a ledger keeps: its links always, and the soundness of
  its loans as long as the settings are valid
- `laws`: what holds of the entry points together

`app/` connects the library to the host: it reads the ledger from storage,
checks signatures, calls the library, writes the ledger back and carries out
what the library asks for.
