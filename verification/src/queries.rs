use vstd::prelude::*;

verus! {

/// The query document of `FetchLatestEdition`, with the fragments it uses.
pub const LATEST_EDITION_DOCUMENT: &'static str = "
query FetchLatestEdition($locale: Locale) {
  editions(locale: $locale) { nodes { title date items { ...EditionItemSummary } } }
}
fragment EditionItemSummary on EditionItem {
  title slug date previewText wordCount expectedReadTimeSeconds
  content {
    __typename
    ... on Longform { longformTitle: title header teaser headerColor { light dark } cardColor { light dark } titleColor { light dark } topImage { url } authors { firstName lastName } }
    ... on Feature { featureTitle: title header label headerColor { light dark } labelColor { light dark } image { url } authors { firstName lastName } countryCodes }
    ... on DataVisualisation { dvTitle: title header label headerColor { light dark } labelColor { light dark } image { url } authors { firstName lastName } }
    ... on CulturalRecommendation { crTitle: title header headerColor { light dark } coverImage { url } authors { firstName lastName } }
    ... on EditorsNote { authors { firstName lastName } }
    ... on CommunityNote { cnTitle: title label signature authors { firstName lastName } }
    ... on Advert { adTitle: title }
  }
}";

/// The GraphQL query for the editions, newest first, with their items.
pub struct FetchLatestEdition;

impl FetchLatestEdition {
    /// The name of the operation in the query document.
    pub fn operation_name() -> (r: &'static str)
        ensures
            r@ == "FetchLatestEdition"@,
    {
        "FetchLatestEdition"
    }

    /// The query document.
    pub fn document() -> (r: &'static str)
        ensures
            r@ == LATEST_EDITION_DOCUMENT@,
    {
        LATEST_EDITION_DOCUMENT
    }
}

/// The query document of `FetchHomepage`, with the fragments it uses.
pub const HOMEPAGE_DOCUMENT: &'static str = "
query FetchHomepage($locale: Locale) {
  page(slug: \"home\", locale: $locale) {
    sections {
      __typename
      ... on HeroSection { editionItem1 { ...EditionItemSummary } editionItem2 { ...EditionItemSummary } editionItem3 { ...EditionItemSummary } editionItem4 { ...EditionItemSummary } editionItem5 { ...EditionItemSummary } }
      ... on EditionItemListSection { heading subheading headerColor { light dark } editionItems { ...EditionItemSummary } }
      ... on EditionItemHighlightSection { editionItem { ...EditionItemSummary } }
      ... on EditionItemInlineSection { editionItem { ...EditionItemSummary } }
    }
  }
}
fragment EditionItemSummary on EditionItem {
  title slug date previewText wordCount expectedReadTimeSeconds
  content {
    __typename
    ... on Longform { longformTitle: title header teaser headerColor { light dark } cardColor { light dark } titleColor { light dark } topImage { url } authors { firstName lastName } }
    ... on Feature { featureTitle: title header label headerColor { light dark } labelColor { light dark } image { url } authors { firstName lastName } countryCodes }
    ... on DataVisualisation { dvTitle: title header label headerColor { light dark } labelColor { light dark } image { url } authors { firstName lastName } }
    ... on CulturalRecommendation { crTitle: title header headerColor { light dark } coverImage { url } authors { firstName lastName } }
    ... on EditorsNote { authors { firstName lastName } }
    ... on CommunityNote { cnTitle: title label signature authors { firstName lastName } }
    ... on Advert { adTitle: title }
  }
}";

/// The GraphQL query for the homepage: its sections and their items.
pub struct FetchHomepage;

impl FetchHomepage {
    /// The name of the operation in the query document.
    pub fn operation_name() -> (r: &'static str)
        ensures
            r@ == "FetchHomepage"@,
    {
        "FetchHomepage"
    }

    /// The query document.
    pub fn document() -> (r: &'static str)
        ensures
            r@ == HOMEPAGE_DOCUMENT@,
    {
        HOMEPAGE_DOCUMENT
    }
}

/// The query document of `FetchArticle`, with the fragments it uses.
pub const ARTICLE_DOCUMENT: &'static str = "
query FetchArticle($slug: String, $locale: Locale) {
  editionItem(slug: $slug, locale: $locale) {
    title slug date previewText wordCount expectedReadTimeSeconds
    content {
      __typename
      ... on Longform { longformTitle: title header teaser headerColor { light dark } cardColor { light dark } titleColor { light dark } authors { firstName lastName } introductionComment { ...ContentBlockFields } content { ...ContentBlockFields } comment { ...ContentBlockFields } }
      ... on Feature { featureTitle: title header label headerColor { light dark } labelColor { light dark } authors { firstName lastName } countryCodes introductionComment { ...ContentBlockFields } lead { ...ContentBlockFields } comment { ...ContentBlockFields } }
      ... on DataVisualisation { dvTitle: title header label headerColor { light dark } labelColor { light dark } image { url width height caption alt } authors { firstName lastName } description { ...ContentBlockFields } }
      ... on CulturalRecommendation { crTitle: title header headerColor { light dark } authors { firstName lastName } description { ...ContentBlockFields } }
      ... on EditorsNote { authors { firstName lastName } content { ...ContentBlockFields } }
      ... on CommunityNote { cnTitle: title label signature authors { firstName lastName } descriptionTop { ...ContentBlockFields } descriptionBottom { ...ContentBlockFields } }
      ... on Advert { adTitle: title }
    }
  }
}
fragment ContentBlockFields on ContentBlock {
  __typename
  ... on ParagraphContentBlock { text }
  ... on HeadingContentBlock { text }
  ... on ImageContentBlock { image { url width height caption alt } }
}";

/// The GraphQL query for one item with its full content, by slug.
pub struct FetchArticle;

impl FetchArticle {
    /// The name of the operation in the query document.
    pub fn operation_name() -> (r: &'static str)
        ensures
            r@ == "FetchArticle"@,
    {
        "FetchArticle"
    }

    /// The query document.
    pub fn document() -> (r: &'static str)
        ensures
            r@ == ARTICLE_DOCUMENT@,
    {
        ARTICLE_DOCUMENT
    }
}

/// The query document of `SearchArticles`, with the fragments it uses.
pub const SEARCH_DOCUMENT: &'static str = "
query SearchArticles($filter: EditionItemFilter, $locale: Locale) {
  editionItems(filter: $filter, locale: $locale) { nodes { ...EditionItemSummary } }
}
fragment EditionItemSummary on EditionItem {
  title slug date previewText wordCount expectedReadTimeSeconds
  content {
    __typename
    ... on Longform { longformTitle: title header teaser headerColor { light dark } cardColor { light dark } titleColor { light dark } topImage { url } authors { firstName lastName } }
    ... on Feature { featureTitle: title header label headerColor { light dark } labelColor { light dark } image { url } authors { firstName lastName } countryCodes }
    ... on DataVisualisation { dvTitle: title header label headerColor { light dark } labelColor { light dark } image { url } authors { firstName lastName } }
    ... on CulturalRecommendation { crTitle: title header headerColor { light dark } coverImage { url } authors { firstName lastName } }
    ... on EditorsNote { authors { firstName lastName } }
    ... on CommunityNote { cnTitle: title label signature authors { firstName lastName } }
    ... on Advert { adTitle: title }
  }
}";

/// The GraphQL query for the items whose text contains a search text.
pub struct SearchArticles;

impl SearchArticles {
    /// The name of the operation in the query document.
    pub fn operation_name() -> (r: &'static str)
        ensures
            r@ == "SearchArticles"@,
    {
        "SearchArticles"
    }

    /// The query document.
    pub fn document() -> (r: &'static str)
        ensures
            r@ == SEARCH_DOCUMENT@,
    {
        SEARCH_DOCUMENT
    }
}

} // verus!
