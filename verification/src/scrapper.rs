pub mod ScrapperError;
pub mod scrapper;
