use vstd::prelude::*;

verus! {

/// Every failure the library can report, one variant per cause.
///
/// Variants that carry a `String` hold the offending input or file path;
/// the `...Http` variants carry the HTTP status and the raw response body.
#[derive(Debug, Clone, PartialEq)]
pub enum ErrorKind {
    ArgParse(String),
    ArgParseDaysToSync(String, String),
    ArgParseCategoryMappingCanNotRead(String),
    ArgParseCategoryRulesCanNotRead(String),
    ArgParseCategoryRulesCanNotParse(String),
    ArgParseCategoryMappingCanNotParse(String),
    WrongBudgetId(String),
    WrongAccountId(String),
    YNABCategoryGoalTypeParse,
    YNABAccountTypeParse,
    YNABTransactionClearedParse,
    YNABTransactionFlagColorParse,
    YNABGetCategories,
    YNABGetCategoriesHttp(u16, String),
    YNABGetCategoriesParse(String),
    YNABGetAccounts,
    YNABGetAccountsHttp(u16, String),
    YNABGetAccountsParse(String),
    YNABGetBudgets,
    YNABGetBudgetsHttp(u16, String),
    YNABGetBudgetsParse(String),
    YNABGetTransactions,
    YNABGetTransactionsHttp(u16, String),
    YNABGetTransactionsParse(String),
    YNABSaveTransactions,
    YNABSaveTransactionsHttp(u16, String),
    N26Authenticate,
    N26AuthenticateNew,
    N26AuthenticateNewParse(String),
    N26AuthenticateMfaApproval,
    N26AuthenticateCompleteMFA,
    N26AuthenticateCompleteMFAParse(String),
    N26AuthenticateRefreshToken,
    N26AuthenticateRefreshTokenParse(String),
    N26TokenDataFileCanNotRead,
    N26TokenDataFileCanNotParse,
    N26WritingToTokenFile,
    N26GetCategories,
    N26GetCategoriesParse(String),
    N26GetCategoriesHttp(u16, String),
    N26GetTransactions,
    N26GetTransactionsParse(String),
    N26GetTransactionsHttp(u16, String),
    CurrentDir,
    IngDiBaCsvFileCanNotOpen(String),
    IngDiBaCsvFileParse(String),
}

} // verus!
